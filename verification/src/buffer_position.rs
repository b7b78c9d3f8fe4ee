//! Where a pixel lives in the packed frame buffer.
//!
//! The buffer holds 128 rows of 16 bytes, row after row. Column `x` of a row
//! is bit `x % 8` of byte `x / 8` of that row, counting bits from the least
//! significant. Every read and every write of a pixel goes through this
//! mapping, so the buffer stays consistent with itself. A cleared bit is a
//! black pixel and a set bit a white one.

use vstd::prelude::*;
use crate::reverse_bits::bit;

verus! {

/// Whether `(x, y)` names a pixel of the panel.
pub open spec fn in_grid(x: int, y: int) -> bool {
    0 <= x < 128 && 0 <= y < 128
}

/// Index in the frame buffer of the byte that holds pixel `(x, y)`.
pub open spec fn byte_offset(x: int, y: int) -> int {
    y * 16 + x / 8
}

/// Index within its byte of the bit that holds a pixel of column `x`.
pub open spec fn bit_offset(x: int) -> u8 {
    (x % 8) as u8
}

/// `b` with bit `i` set or cleared and every other bit as it was.
pub open spec fn with_bit(b: u8, i: u8, set: bool) -> u8 {
    if set {
        b | (1u8 << i)
    } else {
        b & !(1u8 << i)
    }
}

/// Whether pixel `(x, y)` is black in the packed buffer `buf`.
pub open spec fn pixel_black(buf: Seq<u8>, x: int, y: int) -> bool {
    !bit(buf[byte_offset(x, y)], bit_offset(x))
}

/// The packed buffer after pixel `(x, y)` has been written black or white.
/// Outside the panel nothing changes.
pub open spec fn written(buf: Seq<u8>, x: int, y: int, black: bool) -> Seq<u8> {
    if in_grid(x, y) {
        buf.update(byte_offset(x, y), with_bit(buf[byte_offset(x, y)], bit_offset(x), !black))
    } else {
        buf
    }
}

/// Splits a column into the bit within its byte and the byte within its row,
/// in this order.
pub fn get_position(x: u8) -> (r: (u8, u8))
    ensures
        r.0 == bit_offset(x as int),
        r.1 == x / 8,
        r.0 < 8,
{
    (x % 8, x / 8)
}

/// Writing one bit of a byte changes that bit and no other.
pub proof fn lemma_with_bit(b: u8, i: u8, set: bool, j: u8)
    requires
        i < 8,
        j < 8,
    ensures
        bit(with_bit(b, i, set), j) == if j == i {
            set
        } else {
            bit(b, j)
        },
{
    assert(i < 8 && j < 8 ==> bit(b | (1u8 << i), j) == (j == i || bit(b, j))) by (bit_vector);
    assert(i < 8 && j < 8 ==> bit(b & !(1u8 << i), j) == (j != i && bit(b, j))) by (bit_vector);
}

/// A write inside the panel gives the pixel the written colour and leaves
/// every other pixel of the panel as it was.
pub proof fn lemma_written_pixels(buf: Seq<u8>, x: int, y: int, black: bool, px: int, py: int)
    requires
        buf.len() == 2048,
        in_grid(x, y),
        in_grid(px, py),
    ensures
        pixel_black(written(buf, x, y, black), px, py) == if px == x && py == y {
            black
        } else {
            pixel_black(buf, px, py)
        },
{
    if byte_offset(px, py) == byte_offset(x, y) {
        lemma_with_bit(buf[byte_offset(x, y)], bit_offset(x), !black, bit_offset(px));
    }
}

/// Two buffers that agree on every pixel of the panel hold the same bytes.
pub proof fn lemma_pixels_determine_bytes(a: Seq<u8>, b: Seq<u8>)
    requires
        a.len() == 2048,
        b.len() == 2048,
        forall|x: int, y: int| in_grid(x, y) ==> pixel_black(a, x, y) == pixel_black(b, x, y),
    ensures
        a == b,
{
    assert forall|k: int| 0 <= k < 2048 implies a[k] == b[k] by {
        let y = k / 16;
        let c = k % 16;
        assert forall|i: u8| i < 8 implies bit(a[k], i) == bit(b[k], i) by {
            let x = c * 8 + i;
            assert(in_grid(x, y));
            assert(byte_offset(x, y) == k);
            assert(bit_offset(x) == i);
            assert(pixel_black(a, x, y) == pixel_black(b, x, y));
        }
        lemma_bits_determine_byte(a[k], b[k]);
    }
    assert(a =~= b);
}

/// Two bytes with the same eight bits are equal.
pub proof fn lemma_bits_determine_byte(a: u8, b: u8)
    requires
        forall|i: u8| i < 8 ==> bit(a, i) == bit(b, i),
    ensures
        a == b,
{
    assert(bit(a, 0) == bit(b, 0));
    assert(bit(a, 1) == bit(b, 1));
    assert(bit(a, 2) == bit(b, 2));
    assert(bit(a, 3) == bit(b, 3));
    assert(bit(a, 4) == bit(b, 4));
    assert(bit(a, 5) == bit(b, 5));
    assert(bit(a, 6) == bit(b, 6));
    assert(bit(a, 7) == bit(b, 7));
    assert(a == b) by (bit_vector)
        requires
            bit(a, 0) == bit(b, 0),
            bit(a, 1) == bit(b, 1),
            bit(a, 2) == bit(b, 2),
            bit(a, 3) == bit(b, 3),
            bit(a, 4) == bit(b, 4),
            bit(a, 5) == bit(b, 5),
            bit(a, 6) == bit(b, 6),
            bit(a, 7) == bit(b, 7),
    ;
}

} // verus!
