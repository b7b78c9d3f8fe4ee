//! Pixel lists and the checkerboard test pattern.

use vstd::prelude::*;
use crate::buffer_position::{in_grid, written};
use crate::display::Ls010b7dh01;

verus! {

/// The packed buffer after the pixels of `pixels` have been written in order.
///
/// A pixel is a coordinate pair and a colour. Each coordinate is cut down to
/// eight bits, a colour of 1 is black and every other colour white, and a
/// pixel that then lies outside the panel is skipped.
pub open spec fn drawn(buf: Seq<u8>, pixels: Seq<((u32, u32), u8)>) -> Seq<u8>
    decreases pixels.len(),
{
    if pixels.len() == 0 {
        buf
    } else {
        let ((x, y), colour) = pixels.last();
        written(drawn(buf, pixels.drop_last()), (x % 256) as int, (y % 256) as int, colour == 1)
    }
}

impl Ls010b7dh01 {
    /// Writes a list of pixels, first to last.
    pub fn draw(&mut self, item_pixels: &[((u32, u32), u8)])
        ensures
            final(self)@ == drawn(old(self)@, item_pixels@),
    {
        let mut i: usize = 0;
        while i < item_pixels.len()
            invariant
                i <= item_pixels.len(),
                self@ == drawn(old(self)@, item_pixels@.take(i as int)),
            decreases item_pixels.len() - i,
        {
            let ((x, y), colour) = item_pixels[i];
            self.write_pixel((x % 256) as u8, (y % 256) as u8, colour == 1);
            proof {
                assert(item_pixels@.take(i + 1).drop_last() =~= item_pixels@.take(i as int));
            }
            i += 1;
        }
        assert(item_pixels@.take(i as int) =~= item_pixels@);
    }

    /// Draws a checkerboard: every pixel whose column and row are both even
    /// or both odd turns black, and every other pixel keeps its colour.
    pub fn write_checkerboard(&mut self)
        ensures
            forall|px: int, py: int|
                in_grid(px, py) ==> #[trigger] final(self).black(px, py) == (px % 2 == py % 2
                    || old(self).black(px, py)),
    {
        let mut i: u8 = 0;
        while i < 128
            invariant
                i <= 128,
                forall|px: int, py: int|
                    in_grid(px, py) ==> #[trigger] self.black(px, py) == ((py < i && px % 2 == py
                        % 2) || old(self).black(px, py)),
            decreases 128 - i,
        {
            let ghost rows = *self;
            let mut j: u8 = 0;
            while j < 64
                invariant
                    i < 128,
                    j <= 64,
                    forall|px: int, py: int|
                        in_grid(px, py) ==> #[trigger] self.black(px, py) == ((py == i && px < 2 * j
                            && px % 2 == i % 2) || rows.black(px, py)),
                decreases 64 - j,
            {
                self.write_pixel(j * 2 + i % 2, i, true);
                j += 1;
            }
            i += 1;
        }
    }
}

} // verus!
