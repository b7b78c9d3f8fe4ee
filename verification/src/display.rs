//! The driver's state: the frame buffer that mirrors the panel.

use vstd::prelude::*;
use crate::action::{steps, Action, Level, Step};
use crate::buffer_position::{
    byte_offset, get_position, in_grid, lemma_written_pixels, pixel_black, written,
};

verus! {

/// Driver for one LS010B7DH01 panel.
///
/// It owns the frame buffer, 128 rows of 16 bytes with one bit per pixel. A
/// cleared bit is a black pixel and a set bit a white one. The buffer is
/// allocated once, starts all black, and is only ever changed in place.
pub struct Ls010b7dh01 {
    buffer: [u8; 2048],
}

impl View for Ls010b7dh01 {
    type V = Seq<u8>;

    /// The packed bytes of the frame buffer, row after row.
    closed spec fn view(&self) -> Seq<u8> {
        self.buffer@
    }
}

impl Ls010b7dh01 {
    /// Whether pixel `(x, y)` is black in the frame buffer.
    pub open spec fn black(&self, x: int, y: int) -> bool {
        pixel_black(self@, x, y)
    }

    /// The frame buffer always holds 2048 bytes.
    pub broadcast proof fn lemma_len(&self)
        ensures
            #[trigger] self@.len() == 2048,
    {
    }

    /// Creates the driver for a panel.
    ///
    /// The frame buffer starts zeroed, which is all black. The returned
    /// actions put the panel into its starting state: they drive the
    /// panel-enable line low and then the chip-select line low, so that the
    /// panel starts disabled and deselected.
    pub fn new() -> (r: (Self, Vec<Action>))
        ensures
            r.0@ == Seq::new(2048, |i: int| 0u8),
            steps(r.1@) == seq![Step::PanelEnable(Level::Low), Step::ChipSelect(Level::Low)],
    {
        let actions = vec![Action::PanelEnable(Level::Low), Action::ChipSelect(Level::Low)];
        let display = Ls010b7dh01 { buffer: [0u8; 2048] };
        proof {
            assert(display@ =~= Seq::new(2048, |i: int| 0u8));
            assert(steps(actions@) =~= seq![
                Step::PanelEnable(Level::Low),
                Step::ChipSelect(Level::Low),
            ]);
        }
        (display, actions)
    }

    /// Writes a single pixel: black when `val` holds, white otherwise.
    ///
    /// A coordinate outside the panel is ignored and the buffer stays as it
    /// is. Inside the panel only the pixel's own bit changes.
    pub fn write_pixel(&mut self, x: u8, y: u8, val: bool)
        ensures
            final(self)@ == written(old(self)@, x as int, y as int, val),
            !in_grid(x as int, y as int) ==> final(self)@ == old(self)@,
            in_grid(x as int, y as int) ==> final(self).black(x as int, y as int) == val,
            forall|px: int, py: int|
                in_grid(px, py) && !(px == x && py == y) ==> #[trigger] final(self).black(px, py)
                    == old(self).black(px, py),
    {
        if x >= 128 || y >= 128 {
            return ;
        }
        let (bit, bucket) = get_position(x);
        let at: usize = y as usize * 16 + bucket as usize;
        // Black is 0 and white is 1, so a black pixel clears its bit.
        if val {
            self.buffer[at] = self.buffer[at] & !(1u8 << bit);
        } else {
            self.buffer[at] = self.buffer[at] | (1u8 << bit);
        }
        proof {
            assert(at == byte_offset(x as int, y as int));
            assert(self@ =~= written(old(self)@, x as int, y as int, val));
            assert forall|px: int, py: int| in_grid(px, py) implies #[trigger] self.black(px, py)
                == if px == x && py == y {
                val
            } else {
                old(self).black(px, py)
            } by {
                lemma_written_pixels(old(self)@, x as int, y as int, val, px, py);
            }
        }
    }

    /// Overwrites every byte of the frame buffer with `value`.
    pub fn reset(&mut self, value: u8)
        ensures
            final(self)@ == Seq::new(2048, |i: int| value),
    {
        let mut i: usize = 0;
        while i < 2048
            invariant
                i <= 2048,
                forall|k: int| 0 <= k < i ==> self.buffer@[k] == value,
            decreases 2048 - i,
        {
            self.buffer[i] = value;
            i += 1;
        }
        assert(self@ =~= Seq::new(2048, |i: int| value));
    }

    /// The packed bytes of the frame buffer, row after row.
    pub fn buffer(&self) -> (bytes: &[u8; 2048])
        ensures
            bytes@ == self@,
    {
        &self.buffer
    }

    /// The colour of pixel `(x, y)`: `Some(true)` for black, `Some(false)` for
    /// white, `None` outside the panel.
    pub fn pixel(&self, x: u8, y: u8) -> (r: Option<bool>)
        ensures
            r == if in_grid(x as int, y as int) {
                Some(self.black(x as int, y as int))
            } else {
                None
            },
    {
        if x >= 128 || y >= 128 {
            return None;
        }
        let (bit, bucket) = get_position(x);
        let at: usize = y as usize * 16 + bucket as usize;
        Some((self.buffer[at] >> bit) & 1 != 1)
    }
}

} // verus!
