//! Circles, drawn with the midpoint circle algorithm in integer arithmetic.
//!
//! The algorithm walks one eighth of the circle, from the point straight to
//! the right of the centre up to the diagonal, and mirrors every point it
//! visits into the other seven octants. For each row offset `b` it visits the
//! column offset `a` that is the largest one below the radius for which
//! `(a, b)` is still inside the circle.
//!
//! Coordinates are computed as signed values and cut down to eight bits when
//! a pixel is written. A point left of column 0 or beyond column 255 therefore
//! wraps around, and is then dropped like any other write if it lands outside
//! the panel. A circle that reaches far enough past an edge can in this way
//! leave pixels on the opposite side of the panel.

use vstd::prelude::*;
use vstd::arithmetic::div_mod::lemma_mod_equivalence;
use crate::buffer_position::in_grid;
use crate::display::Ls010b7dh01;

verus! {

/// Whether the walk along the first octant of a circle of radius `r` visits
/// the offset `(a, b)` from the centre: `b` does not exceed `a`, the point is
/// inside the circle, and `a` is the largest column offset below `r` of which
/// that holds in row `b`.
pub open spec fn on_arc(r: int, a: int, b: int) -> bool {
    &&& 0 <= b <= a < r
    &&& a * a + b * b <= r * r
    &&& (a + 1 == r || (a + 1) * (a + 1) + b * b > r * r)
}

/// A signed coordinate cut down to eight bits.
pub open spec fn wrapped(c: int) -> int {
    c % 256
}

/// Whether `p` is the coordinate at the offset `o` to either side of the
/// centre coordinate `c`.
pub open spec fn mirrored(p: int, c: int, o: int) -> bool {
    p == wrapped(c + o) || p == wrapped(c - o)
}

/// Whether `(px, py)` is one of the eight mirror images, around the centre
/// `(x0, y0)`, of the offset `(a, b)`: the offsets `a` and `b` to either side,
/// in either order.
pub open spec fn octant_hits(x0: int, y0: int, a: int, b: int, px: int, py: int) -> bool {
    ||| (mirrored(px, x0, a) && mirrored(py, y0, b))
    ||| (mirrored(px, x0, b) && mirrored(py, y0, a))
}

/// Whether a circle of radius `r` around `(x0, y0)` writes pixel `(px, py)`
/// while it walks the rows below `limit` of its first octant.
pub open spec fn arc_touches_below(x0: int, y0: int, r: int, limit: int, px: int, py: int) -> bool {
    exists|a: int, b: int|
        on_arc(r, a, b) && b < limit && #[trigger] octant_hits(x0, y0, a, b, px, py)
}

/// Whether a circle of radius `r` around `(x0, y0)` writes pixel `(px, py)`.
pub open spec fn circle_touches(x0: int, y0: int, r: int, px: int, py: int) -> bool {
    exists|a: int, b: int| on_arc(r, a, b) && #[trigger] octant_hits(x0, y0, a, b, px, py)
}

proof fn lemma_square_monotone(p: int, q: int)
    requires
        0 <= p <= q,
    ensures
        p * p <= q * q,
{
    assert(p * p <= q * q) by (nonlinear_arith)
        requires
            0 <= p <= q,
    ;
}

/// A row of the first octant holds at most one visited offset.
proof fn lemma_arc_unique(r: int, a: int, c: int, b: int)
    requires
        on_arc(r, a, b),
        on_arc(r, c, b),
    ensures
        a == c,
{
    if a < c {
        lemma_square_monotone(a + 1, c);
    }
    if c < a {
        lemma_square_monotone(c + 1, a);
    }
}

/// Walking one more row adds the mirror images of that row's offset.
proof fn lemma_arc_step(x0: int, y0: int, r: int, x: int, y: int, px: int, py: int)
    requires
        on_arc(r, x, y),
    ensures
        arc_touches_below(x0, y0, r, y + 1, px, py) == (arc_touches_below(x0, y0, r, y, px, py)
            || octant_hits(x0, y0, x, y, px, py)),
{
    if arc_touches_below(x0, y0, r, y + 1, px, py) {
        let (a, b) = choose|a: int, b: int|
            on_arc(r, a, b) && b < y + 1 && #[trigger] octant_hits(x0, y0, a, b, px, py);
        if b == y {
            lemma_arc_unique(r, a, x, y);
        }
    }
}

/// Once the walk has crossed the diagonal, no row of the first octant is left.
proof fn lemma_arc_done(x0: int, y0: int, r: int, x: int, y: int, px: int, py: int)
    requires
        -1 <= x < y,
        x + 1 == r || (x + 1) * (x + 1) + y * y > r * r,
    ensures
        arc_touches_below(x0, y0, r, y, px, py) == circle_touches(x0, y0, r, px, py),
{
    if circle_touches(x0, y0, r, px, py) {
        let (a, b) = choose|a: int, b: int|
            on_arc(r, a, b) && #[trigger] octant_hits(x0, y0, a, b, px, py);
        if b >= y {
            lemma_square_monotone(x + 1, a);
            lemma_square_monotone(y, b);
        }
    }
}

/// Every offset that the walk visits lies between the circle of radius
/// `r - 1` and the circle of radius `r`.
pub proof fn lemma_arc_distance(r: int, a: int, b: int)
    requires
        on_arc(r, a, b),
    ensures
        (r - 1) * (r - 1) <= a * a + b * b <= r * r,
{
    lemma_square_monotone(0, b);
    if a + 1 == r {
    } else {
        assert((a + 1) * (a + 1) == a * a + 2 * a + 1) by (nonlinear_arith);
        assert((r - 1) * (r - 1) == r * r - 2 * r + 1) by (nonlinear_arith);
    }
}

/// Whether the offset `u` is `o` or `-o` once coordinates wrap.
#[verifier::opaque]
spec fn offset_matches(u: int, o: int) -> bool {
    (u - o) % 256 == 0 || (u + o) % 256 == 0
}

proof fn lemma_mirrored_offset(c: int, u: int, o: int)
    ensures
        mirrored(wrapped(c + u), c, o) == offset_matches(u, o),
{
    reveal(offset_matches);
    lemma_mod_equivalence(c + u, c + o, 256);
    lemma_mod_equivalence(c + u, c - o, 256);
    assert((c + u) - (c + o) == u - o);
    assert((c + u) - (c - o) == u + o);
}

proof fn lemma_offset_negated(u: int, o: int)
    ensures
        offset_matches(-u, o) == offset_matches(u, o),
{
    reveal(offset_matches);
    lemma_mod_equivalence(0, u + o, 256);
    lemma_mod_equivalence(0, u - o, 256);
    assert(0 - (u + o) == -u - o);
    assert(0 - (u - o) == -u + o);
}

/// Whether a pixel at the offset `(u, v)` from the centre is a mirror image
/// of the offset `(a, b)`.
proof fn lemma_octant_offsets(x0: int, y0: int, a: int, b: int, u: int, v: int)
    ensures
        octant_hits(x0, y0, a, b, wrapped(x0 + u), wrapped(y0 + v)) == ((offset_matches(u, a)
            && offset_matches(v, b)) || (offset_matches(u, b) && offset_matches(v, a))),
{
    lemma_mirrored_offset(x0, u, a);
    lemma_mirrored_offset(x0, u, b);
    lemma_mirrored_offset(y0, v, a);
    lemma_mirrored_offset(y0, v, b);
}

/// One direction of the symmetry: the mirror images of a written pixel are
/// written.
proof fn lemma_circle_mirrors(x0: int, y0: int, r: int, u: int, v: int)
    requires
        circle_touches(x0, y0, r, wrapped(x0 + u), wrapped(y0 + v)),
    ensures
        circle_touches(x0, y0, r, wrapped(x0 - u), wrapped(y0 + v)),
        circle_touches(x0, y0, r, wrapped(x0 + u), wrapped(y0 - v)),
        circle_touches(x0, y0, r, wrapped(x0 + v), wrapped(y0 + u)),
{
    let (a, b) = choose|a: int, b: int|
        on_arc(r, a, b) && #[trigger] octant_hits(x0, y0, a, b, wrapped(x0 + u), wrapped(y0 + v));
    lemma_octant_offsets(x0, y0, a, b, u, v);
    lemma_offset_negated(u, a);
    lemma_offset_negated(u, b);
    lemma_offset_negated(v, a);
    lemma_offset_negated(v, b);
    assert(octant_hits(x0, y0, a, b, wrapped(x0 - u), wrapped(y0 + v))) by {
        lemma_octant_offsets(x0, y0, a, b, -u, v);
        assert(x0 + (-u) == x0 - u);
    }
    assert(octant_hits(x0, y0, a, b, wrapped(x0 + u), wrapped(y0 - v))) by {
        lemma_octant_offsets(x0, y0, a, b, u, -v);
        assert(y0 + (-v) == y0 - v);
    }
    assert(octant_hits(x0, y0, a, b, wrapped(x0 + v), wrapped(y0 + u))) by {
        lemma_octant_offsets(x0, y0, a, b, v, u);
    }
}

/// The pixels of a circle are symmetric about its centre. If the circle
/// writes the pixel at the offset `(u, v)` from the centre, it also writes the
/// pixels at the offsets `(-u, v)`, `(u, -v)` and `(v, u)`, and with them all
/// eight mirror images; if it does not write the first, it writes none of
/// them.
pub proof fn lemma_circle_symmetric(x0: int, y0: int, r: int, u: int, v: int)
    ensures
        circle_touches(x0, y0, r, wrapped(x0 + u), wrapped(y0 + v)) == circle_touches(
            x0,
            y0,
            r,
            wrapped(x0 - u),
            wrapped(y0 + v),
        ),
        circle_touches(x0, y0, r, wrapped(x0 + u), wrapped(y0 + v)) == circle_touches(
            x0,
            y0,
            r,
            wrapped(x0 + u),
            wrapped(y0 - v),
        ),
        circle_touches(x0, y0, r, wrapped(x0 + u), wrapped(y0 + v)) == circle_touches(
            x0,
            y0,
            r,
            wrapped(x0 + v),
            wrapped(y0 + u),
        ),
{
    if circle_touches(x0, y0, r, wrapped(x0 + u), wrapped(y0 + v)) {
        lemma_circle_mirrors(x0, y0, r, u, v);
    }
    if circle_touches(x0, y0, r, wrapped(x0 - u), wrapped(y0 + v)) {
        assert(x0 - u == x0 + (-u) && x0 - (-u) == x0 + u);
        lemma_circle_mirrors(x0, y0, r, -u, v);
    }
    if circle_touches(x0, y0, r, wrapped(x0 + u), wrapped(y0 - v)) {
        assert(y0 - v == y0 + (-v) && y0 - (-v) == y0 + v);
        lemma_circle_mirrors(x0, y0, r, u, -v);
    }
    if circle_touches(x0, y0, r, wrapped(x0 + v), wrapped(y0 + u)) {
        lemma_circle_mirrors(x0, y0, r, v, u);
    }
}

/// Without wrap-around a mirrored coordinate lies at the plain offset to
/// one side of the centre.
proof fn lemma_mirrored_plain(p: int, c: int, o: int)
    requires
        0 <= c - o,
        0 <= c + o,
        c - o < 256,
        c + o < 256,
        mirrored(p, c, o),
    ensures
        p - c == o || p - c == -o,
{
}

proof fn lemma_offsets_distance(r: int, a: int, b: int, dx: int, dy: int)
    requires
        on_arc(r, a, b),
        ((dx == a || dx == -a) && (dy == b || dy == -b)) || ((dx == b || dx == -b) && (dy == a
            || dy == -a)),
    ensures
        (r - 1) * (r - 1) <= dx * dx + dy * dy <= r * r,
{
    lemma_arc_distance(r, a, b);
    assert(dx * dx + dy * dy == a * a + b * b) by (nonlinear_arith)
        requires
            ((dx == a || dx == -a) && (dy == b || dy == -b)) || ((dx == b || dx == -b) && (dy == a
                || dy == -a)),
    ;
}

/// Every pixel of a circle that stays clear of the wrap-around, so that its
/// offsets up to `r - 1` to each side of the centre are coordinates of eight
/// bits, lies between the circle of radius `r - 1` and the circle of radius
/// `r` around the centre.
pub proof fn lemma_circle_distance(x0: int, y0: int, r: int, px: int, py: int)
    requires
        0 <= x0 - (r - 1),
        x0 + (r - 1) < 256,
        0 <= y0 - (r - 1),
        y0 + (r - 1) < 256,
        circle_touches(x0, y0, r, px, py),
    ensures
        (r - 1) * (r - 1) <= (px - x0) * (px - x0) + (py - y0) * (py - y0) <= r * r,
{
    let (a, b) = choose|a: int, b: int|
        on_arc(r, a, b) && #[trigger] octant_hits(x0, y0, a, b, px, py);
    if mirrored(px, x0, a) {
        lemma_mirrored_plain(px, x0, a);
    }
    if mirrored(px, x0, b) {
        lemma_mirrored_plain(px, x0, b);
    }
    if mirrored(py, y0, a) {
        lemma_mirrored_plain(py, y0, a);
    }
    if mirrored(py, y0, b) {
        lemma_mirrored_plain(py, y0, b);
    }
    lemma_offsets_distance(r, a, b, px - x0, py - y0);
}

/// Cuts a signed coordinate down to eight bits.
fn wrap_coordinate(c: i32) -> (p: u8)
    requires
        -256 <= c < 512,
    ensures
        p == wrapped(c as int),
{
    if c < 0 {
        (c + 256) as u8
    } else if c >= 256 {
        (c - 256) as u8
    } else {
        c as u8
    }
}

impl Ls010b7dh01 {
    /// Writes the eight mirror images of the offset `(x, y)` around the
    /// centre `(x0, y0)`.
    fn plot_octants(&mut self, x0: i32, y0: i32, x: i32, y: i32, value: bool)
        requires
            0 <= x0 < 256,
            0 <= y0 < 256,
            0 <= x < 256,
            0 <= y < 256,
        ensures
            forall|px: int, py: int|
                in_grid(px, py) ==> #[trigger] final(self).black(px, py) == if octant_hits(
                    x0 as int,
                    y0 as int,
                    x as int,
                    y as int,
                    px,
                    py,
                ) {
                    value
                } else {
                    old(self).black(px, py)
                },
    {
        self.write_pixel(wrap_coordinate(x0 + x), wrap_coordinate(y0 + y), value);
        self.write_pixel(wrap_coordinate(x0 + y), wrap_coordinate(y0 + x), value);
        self.write_pixel(wrap_coordinate(x0 - y), wrap_coordinate(y0 + x), value);
        self.write_pixel(wrap_coordinate(x0 - x), wrap_coordinate(y0 + y), value);
        let ghost half = *self;
        assert forall|px: int, py: int| in_grid(px, py) implies #[trigger] half.black(px, py)
            == if py == wrapped(y0 + y) && mirrored(px, x0 as int, x as int) || py == wrapped(
            y0 + x,
        ) && mirrored(px, x0 as int, y as int) {
            value
        } else {
            old(self).black(px, py)
        } by {}
        self.write_pixel(wrap_coordinate(x0 - x), wrap_coordinate(y0 - y), value);
        self.write_pixel(wrap_coordinate(x0 - y), wrap_coordinate(y0 - x), value);
        self.write_pixel(wrap_coordinate(x0 + y), wrap_coordinate(y0 - x), value);
        self.write_pixel(wrap_coordinate(x0 + x), wrap_coordinate(y0 - y), value);
    }

    /// Draws a circle of radius `r` around `(x0, y0)`: black when `value`
    /// holds, white otherwise.
    ///
    /// Exactly the pixels that the walk along the circle reaches are written;
    /// every other pixel keeps its colour. A radius of zero writes nothing and
    /// a radius of one writes the centre alone.
    pub fn draw_circle(&mut self, x0: u8, y0: u8, r: u8, value: bool)
        ensures
            forall|px: int, py: int|
                in_grid(px, py) ==> #[trigger] final(self).black(px, py) == if circle_touches(
                    x0 as int,
                    y0 as int,
                    r as int,
                    px,
                    py,
                ) {
                    value
                } else {
                    old(self).black(px, py)
                },
            r == 0 ==> final(self)@ == old(self)@,
    {
        let x0: i32 = x0 as i32;
        let y0: i32 = y0 as i32;
        let r: i32 = r as i32;

        let mut x: i32 = r - 1;
        let mut y: i32 = 0;
        let mut dx: i32 = 1;
        let mut dy: i32 = 1;
        let mut err: i32 = dx - 2 * r;

        assert(err == x * x + y * y - r * r) by (nonlinear_arith)
            requires
                x == r - 1,
                y == 0,
                err == 1 - 2 * r,
        ;
        while x >= y
            invariant
                0 <= x0 < 256,
                0 <= y0 < 256,
                0 <= r < 256,
                -1 <= x < r,
                0 <= y <= x + 2,
                dx == 2 * (r - 1 - x) + 1,
                dy == 2 * y + 1,
                err == x * x + y * y - r * r,
                x >= y ==> err <= 0,
                x + 1 == r || (x + 1) * (x + 1) + y * y > r * r,
                r == 0 ==> self@ == old(self)@,
                forall|px: int, py: int|
                    in_grid(px, py) ==> #[trigger] self.black(px, py) == if arc_touches_below(
                        x0 as int,
                        y0 as int,
                        r as int,
                        y as int,
                        px,
                        py,
                    ) {
                        value
                    } else {
                        old(self).black(px, py)
                    },
            decreases r + 2 - y,
        {
            let ghost before = *self;
            self.plot_octants(x0, y0, x, y, value);
            proof {
                assert(on_arc(r as int, x as int, y as int));
                assert forall|px: int, py: int| in_grid(px, py) implies #[trigger] self.black(
                    px,
                    py,
                ) == if arc_touches_below(x0 as int, y0 as int, r as int, y + 1, px, py) {
                    value
                } else {
                    old(self).black(px, py)
                } by {
                    lemma_arc_step(x0 as int, y0 as int, r as int, x as int, y as int, px, py);
                    assert(before.black(px, py) == if arc_touches_below(
                        x0 as int,
                        y0 as int,
                        r as int,
                        y as int,
                        px,
                        py,
                    ) {
                        value
                    } else {
                        old(self).black(px, py)
                    });
                }
                assert((y + 1) * (y + 1) == y * y + 2 * y + 1) by (nonlinear_arith);
                assert((x - 1) * (x - 1) == x * x - 2 * x + 1) by (nonlinear_arith);
                assert(0 <= x * x <= 65536 && 0 <= y * y <= 65536 && 0 <= r * r <= 65536)
                    by (nonlinear_arith)
                    requires
                        0 <= x < 256,
                        0 <= y < 256,
                        0 <= r < 256,
                ;
            }

            if err <= 0 {
                y += 1;
                err += dy;
                dy += 2;
            }
            if err > 0 {
                x -= 1;
                dx += 2;
                err += dx - 2 * r;
            }
        }
        proof {
            assert forall|px: int, py: int| in_grid(px, py) implies #[trigger] self.black(px, py)
                == if circle_touches(x0 as int, y0 as int, r as int, px, py) {
                value
            } else {
                old(self).black(px, py)
            } by {
                lemma_arc_done(x0 as int, y0 as int, r as int, x as int, y as int, px, py);
            }
        }
    }
}

} // verus!
