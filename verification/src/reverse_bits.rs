//! Bit-order transform for row addresses.
//!
//! The panel expects a row address with its bits in the opposite order from
//! an ordinary binary count, so every row index is reversed before it goes
//! onto the wire.

use vstd::prelude::*;

verus! {

/// Whether bit `i` of `n` is set, counting from the least significant bit.
pub open spec fn bit(n: u8, i: u8) -> bool {
    (n >> i) & 1 == 1
}

/// The value of a byte that has only bit `i` set when `set` holds, else zero.
pub open spec fn weight(set: bool, i: u8) -> u8 {
    if set {
        1u8 << i
    } else {
        0u8
    }
}

/// `n` with its eight bits in the opposite order: bit 0 of `n` becomes bit 7,
/// bit 1 becomes bit 6, and so on.
pub open spec fn reversed(n: u8) -> u8 {
    weight(bit(n, 0), 7) | weight(bit(n, 1), 6) | weight(bit(n, 2), 5) | weight(bit(n, 3), 4)
        | weight(bit(n, 4), 3) | weight(bit(n, 5), 2) | weight(bit(n, 6), 1) | weight(bit(n, 7), 0)
}

/// Reverses the order of the eight bits of `n`.
pub fn reverse_bits(n: u8) -> (r: u8)
    ensures
        r == reversed(n),
{
    let nibbles: u8 = (n & 0xF0) >> 4 | (n & 0x0F) << 4;
    let pairs: u8 = (nibbles & 0xCC) >> 2 | (nibbles & 0x33) << 2;
    let r: u8 = (pairs & 0xAA) >> 1 | (pairs & 0x55) << 1;
    assert(r == reversed(n)) by (bit_vector)
        requires
            nibbles == (n & 0xF0) >> 4 | (n & 0x0F) << 4,
            pairs == (nibbles & 0xCC) >> 2 | (nibbles & 0x33) << 2,
            r == (pairs & 0xAA) >> 1 | (pairs & 0x55) << 1,
    ;
    r
}

/// Bit `i` of the reversed byte is bit `7 - i` of the byte itself.
pub proof fn lemma_reversed_mirrors(n: u8, i: u8)
    requires
        i < 8,
    ensures
        bit(reversed(n), i) == bit(n, (7 - i) as u8),
{
    assert(i < 8 ==> bit(reversed(n), i) == bit(n, (7 - i) as u8)) by (bit_vector);
}

/// Reversing a byte twice gives the byte back.
pub proof fn lemma_reversed_involution(n: u8)
    ensures
        reversed(reversed(n)) == n,
{
    assert(reversed(reversed(n)) == n) by (bit_vector);
}

} // verus!
