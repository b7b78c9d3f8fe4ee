//! Rectangle outlines.
//!
//! `(x, y)` is the corner of the rectangle with the smallest coordinates. The
//! rectangle spans the columns `x .. x + width` and the rows `y .. y + height`,
//! both without their upper end. Its near edges lie in column `x` and row `y`,
//! its far edges in column `x + width - 1` and row `y + height - 1`.
//!
//! Edges are clipped and never wrap: each one stops at the border of the
//! panel. A far edge is drawn only where it leaves a free column or row
//! between itself and the border, that is while `x + width` (or `y + height`)
//! stays below 128, and only if the rectangle has any extent in that
//! direction at all. A rectangle of width zero is therefore the single line of
//! its near vertical edge, one of height zero the single line of its near
//! horizontal edge, and one of width and height zero is nothing.

use vstd::prelude::*;
use crate::buffer_position::in_grid;
use crate::display::Ls010b7dh01;

verus! {

/// Whether the far edge of an extent `len` that starts at `start` is drawn.
pub open spec fn far_edge_drawn(start: int, len: int) -> bool {
    len > 0 && start + len < 128
}

/// Whether `draw_rect(x, y, w, h)` writes pixel `(px, py)`.
pub open spec fn rect_touches(x: int, y: int, w: int, h: int, px: int, py: int) -> bool {
    &&& in_grid(x, y)
    &&& in_grid(px, py)
    &&& {
        ||| (x <= px < x + w && (py == y || (far_edge_drawn(y, h) && py == y + h - 1)))
        ||| (y <= py < y + h && (px == x || (far_edge_drawn(x, w) && px == x + w - 1)))
    }
}

/// Whether `(px, py)` lies on the outline of the rectangle that spans the
/// columns `x .. x + w` and the rows `y .. y + h`.
pub open spec fn on_perimeter(x: int, y: int, w: int, h: int, px: int, py: int) -> bool {
    &&& x <= px < x + w
    &&& y <= py < y + h
    &&& (px == x || px == x + w - 1 || py == y || py == y + h - 1)
}

/// A rectangle with some width and height that stays clear of the border of
/// the panel is drawn as exactly its outline: every pixel of the outline is
/// written, and no pixel inside or outside of it.
pub proof fn lemma_rect_is_perimeter(x: int, y: int, w: int, h: int, px: int, py: int)
    requires
        0 <= x,
        0 <= y,
        w > 0,
        h > 0,
        x + w < 128,
        y + h < 128,
    ensures
        rect_touches(x, y, w, h, px, py) == on_perimeter(x, y, w, h, px, py),
{
}

impl Ls010b7dh01 {
    /// Draws the outline of a rectangle in black, with its corner of smallest
    /// coordinates at `(x, y)`.
    ///
    /// A corner outside the panel draws nothing. Otherwise exactly the pixels
    /// of the clipped edges turn black and every other pixel keeps its colour.
    pub fn draw_rect(&mut self, x: u8, y: u8, width: u8, height: u8)
        ensures
            forall|px: int, py: int|
                in_grid(px, py) ==> #[trigger] final(self).black(px, py) == (rect_touches(
                    x as int,
                    y as int,
                    width as int,
                    height as int,
                    px,
                    py,
                ) || old(self).black(px, py)),
            !in_grid(x as int, y as int) || (width == 0 && height == 0) ==> final(self)@ == old(
                self,
            )@,
    {
        if x >= 128 || y >= 128 {
            return ;
        }
        let x_end: u16 = x as u16 + width as u16;
        let y_end: u16 = y as u16 + height as u16;
        let far_row: bool = height > 0 && y_end < 128;
        let far_column: bool = width > 0 && x_end < 128;

        let mut i: u16 = x as u16;
        while i < x_end && i < 128
            invariant
                x < 128,
                y < 128,
                x_end == x + width,
                y_end == y + height,
                far_row == far_edge_drawn(y as int, height as int),
                x <= i,
                width == 0 && height == 0 ==> self@ == old(self)@,
                forall|px: int, py: int|
                    in_grid(px, py) ==> #[trigger] self.black(px, py) == ((x <= px < i && px < x_end
                        && (py == y || (far_row && py == y_end - 1))) || old(self).black(px, py)),
            decreases 128 - i,
        {
            self.write_pixel(i as u8, y, true);
            if far_row {
                self.write_pixel(i as u8, (y_end - 1) as u8, true);
            }
            i += 1;
        }

        let ghost rows = *self;
        let mut j: u16 = y as u16;
        while j < y_end && j < 128
            invariant
                x < 128,
                y < 128,
                x_end == x + width,
                y_end == y + height,
                far_column == far_edge_drawn(x as int, width as int),
                y <= j,
                width == 0 && height == 0 ==> self@ == old(self)@,
                forall|px: int, py: int|
                    in_grid(px, py) ==> #[trigger] self.black(px, py) == ((y <= py < j && py < y_end
                        && (px == x || (far_column && px == x_end - 1))) || rows.black(px, py)),
            decreases 128 - j,
        {
            self.write_pixel(x, j as u8, true);
            if far_column {
                self.write_pixel((x_end - 1) as u8, j as u8, true);
            }
            j += 1;
        }
    }
}

} // verus!
