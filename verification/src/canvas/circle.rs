//! Circles by the integer midpoint walk. One step state is `(x, y, e)`:
//! `x` counts up from 0, `y` down from the radius, and the error term `e`
//! decides when `y` steps down. The filled variant paints whole horizontal
//! spans between the octant boundaries; the outline variant paints the
//! eight octant-symmetric points of each step. Both use the same error
//! update, so their boundaries land on the same pixels.

use crate::canvas::blit::{blit_row, paints, row_cover, Blit};
use crate::color::Color;
use crate::vec2::Vec2;
use vstd::prelude::*;

verus! {

/// Absolute value; the radius' sign is ignored.
pub open spec fn abs1(r: int) -> int {
    if r < 0 {
        -r
    } else {
        r
    }
}

/// The next step state of the midpoint walk after `(x, y, e)`.
pub open spec fn step_next(x: int, y: int, e: int) -> (int, int, int) {
    let y2 = if e > 0 {
        y - 1
    } else {
        y
    };
    let e2 = if e > 0 {
        e - 8 * (y - 1)
    } else {
        e
    };
    (x + 1, y2, e2 + 8 * (x + 1) + 4)
}

/// Whether the offset `(di, dj)` from the center lies in one of the spans
/// the filled walk paints from step state `(x, y, e)` on: the rows `x` and
/// `-x` across the span `-y ..= y`, the rows `y` and `-y` across
/// `-x ..= x` when the error term asks for a row step, and everything
/// later steps paint.
pub open spec fn fill_from(x: int, y: int, e: int, di: int, dj: int) -> bool
    decreases y + 2 - x,
{
    if x > y {
        false
    } else {
        ((dj == x || dj == -x) && -y <= di <= y) || (e > 0 && (dj == y || dj == -y) && -x <= di
            <= x) || {
            let n = step_next(x, y, e);
            fill_from(n.0, n.1, n.2, di, dj)
        }
    }
}

/// Whether `(di, dj)` is one of the eight octant-symmetric points the
/// outline walk plots from step state `(x, y, e)` on.
pub open spec fn ring_from(x: int, y: int, e: int, di: int, dj: int) -> bool
    decreases y + 2 - x,
{
    if x > y {
        false
    } else {
        ((abs1(di) == x && abs1(dj) == y) || (abs1(di) == y && abs1(dj) == x)) || {
            let n = step_next(x, y, e);
            ring_from(n.0, n.1, n.2, di, dj)
        }
    }
}

/// The coordinates the filled circle covers: a disc of diameter
/// `2 * |radius| + 1`.
pub open spec fn circle_fill_cover(center: Vec2<isize>, radius: isize) -> Set<(int, int)> {
    let r = abs1(radius as int);
    Set::new(
        |p: (int, int)| fill_from(0, r, 5 - 4 * r, p.0 - center.x, p.1 - center.y),
    )
}

/// The coordinates the circle outline covers.
pub open spec fn circle_ring_cover(center: Vec2<isize>, radius: isize) -> Set<(int, int)> {
    let r = abs1(radius as int);
    Set::new(
        |p: (int, int)| ring_from(0, r, 5 - 4 * r, p.0 - center.x, p.1 - center.y),
    )
}

/// A circle given by its center, radius and color. The diameter in pixels
/// is always odd (`2 * |radius| + 1`); a negative radius draws the same
/// circle as its absolute value.
pub struct Circle {
    pub center: Vec2<isize>,
    pub radius: isize,
    pub color: Color,
}

impl Circle {
    /// Builds the circle shape.
    pub fn new(center: Vec2<isize>, radius: isize, color: Color) -> (r: Self)
        ensures
            r.center == center,
            r.radius == radius,
            r.color == color,
    {
        Circle { center, radius, color }
    }

    /// The radius is modest and the whole disc stays representable in the
    /// coordinate type (a machine limit, far beyond the display).
    pub open spec fn fits(&self) -> bool {
        &&& abs1(self.radius as int) <= 1000000000
        &&& self.center.x - abs1(self.radius as int) >= isize::MIN
        &&& self.center.x + abs1(self.radius as int) < isize::MAX
        &&& self.center.y - abs1(self.radius as int) >= isize::MIN
        &&& self.center.y + abs1(self.radius as int) < isize::MAX
    }

    /// Paints the filled disc: per step the two full spans, and the two
    /// closing spans whenever the error term steps the rows.
    #[verifier::loop_isolation(false)]
    pub fn draw<T: Blit>(&self, canvas: &mut T)
        requires
            old(canvas).blit_inv(),
            self.fits(),
        ensures
            paints(
                *old(canvas),
                *final(canvas),
                circle_fill_cover(self.center, self.radius),
                self.color,
            ),
    {
        let ghost r0i = abs1(self.radius as int);
        let r0: isize = if self.radius < 0 {
            -self.radius
        } else {
            self.radius
        };
        let cx = self.center.x;
        let cy = self.center.y;
        let mut x: i64 = 0;
        let mut y: i64 = r0 as i64;
        let mut e: i64 = 5 - 4 * (r0 as i64);
        let ghost mut painted: Set<(int, int)> = Set::empty();
        while x <= y
            invariant
                0 <= x,
                x <= y + 2,
                y <= r0i,
                -8 * r0i - 10 <= e as int,
                e as int <= 100 + 4 * (x as int) * (x as int) + 20 * (x as int),
                canvas.blit_inv(),
                canvas.pix_width() == old(canvas).pix_width(),
                canvas.pix_height() == old(canvas).pix_height(),
                canvas.rest() == old(canvas).rest(),
                forall|p: (int, int)| #[trigger]
                    circle_fill_cover(self.center, self.radius).contains(p) == (
                    painted.contains(p) || fill_from(
                        x as int,
                        y as int,
                        e as int,
                        p.0 - cx,
                        p.1 - cy,
                    )),
                forall|i: int, j: int|
                    0 <= i < old(canvas).pix_width() && 0 <= j < old(canvas).pix_height()
                        ==> canvas.pix(i, j) == (if painted.contains((i, j)) {
                        self.color.spec_is_on()
                    } else {
                        old(canvas).pix(i, j)
                    }),
            decreases y + 2 - x,
        {
            let ghost x0 = x as int;
            let ghost y0 = y as int;
            let ghost e0 = e as int;
            proof {
                assert(4 * x0 * x0 + 20 * x0 <= 4000000020000000000) by (nonlinear_arith)
                    requires
                        0 <= x0 <= 1000000000,
                {}
            }
            let ghost pre = *canvas;
            blit_row(canvas, cx - (y as isize), cx + (y as isize), cy - (x as isize), self.color);
            let ghost mid1 = *canvas;
            blit_row(canvas, cx - (y as isize), cx + (y as isize), cy + (x as isize), self.color);
            proof {
                let rows = row_cover(cx - y0, cx + y0, cy - x0).union(
                    row_cover(cx - y0, cx + y0, cy + x0),
                );
                painted = painted.union(rows);
                assert forall|i: int, j: int|
                    0 <= i < old(canvas).pix_width() && 0 <= j < old(canvas).pix_height()
                        implies canvas.pix(i, j) == (if painted.contains((i, j)) {
                        self.color.spec_is_on()
                    } else {
                        old(canvas).pix(i, j)
                    }) by {
                    assert(mid1.pix(i, j) == (if row_cover(cx - y0, cx + y0, cy - x0).contains(
                        (i, j),
                    ) {
                        self.color.spec_is_on()
                    } else {
                        pre.pix(i, j)
                    }));
                }
            }
            if e > 0 {
                let ghost pre2 = *canvas;
                blit_row(canvas, cx - (x as isize), cx + (x as isize), cy - (y as isize),
                    self.color);
                let ghost mid2 = *canvas;
                blit_row(canvas, cx - (x as isize), cx + (x as isize), cy + (y as isize),
                    self.color);
                proof {
                    let rows2 = row_cover(cx - x0, cx + x0, cy - y0).union(
                        row_cover(cx - x0, cx + x0, cy + y0),
                    );
                    painted = painted.union(rows2);
                    assert forall|i: int, j: int|
                        0 <= i < old(canvas).pix_width() && 0 <= j < old(canvas).pix_height()
                            implies canvas.pix(i, j) == (if painted.contains((i, j)) {
                            self.color.spec_is_on()
                        } else {
                            old(canvas).pix(i, j)
                        }) by {
                        assert(mid2.pix(i, j) == (if row_cover(cx - x0, cx + x0, cy - y0).contains(
                            (i, j),
                        ) {
                            self.color.spec_is_on()
                        } else {
                            pre2.pix(i, j)
                        }));
                    }
                }
                y = y - 1;
                e = e - 8 * y;
            }
            x = x + 1;
            e = e + 8 * x + 4;
            proof {
                assert((x as int, y as int, e as int) == step_next(x0, y0, e0));
                assert forall|p: (int, int)| #[trigger]
                    circle_fill_cover(self.center, self.radius).contains(p) == (
                    painted.contains(p) || fill_from(
                        x as int,
                        y as int,
                        e as int,
                        p.0 - cx,
                        p.1 - cy,
                    )) by {
                    assert(fill_from(x0, y0, e0, p.0 - cx, p.1 - cy) == (((p.1 - cy == x0 || p.1
                        - cy == -x0) && -y0 <= p.0 - cx <= y0) || (e0 > 0 && (p.1 - cy == y0 || p.1
                        - cy == -y0) && -x0 <= p.0 - cx <= x0) || fill_from(
                        x as int,
                        y as int,
                        e as int,
                        p.0 - cx,
                        p.1 - cy,
                    )));
                }
                assert(e as int <= 100 + 4 * (x as int) * (x as int) + 20 * (x as int))
                    by (nonlinear_arith)
                    requires
                        e0 <= 100 + 4 * x0 * x0 + 20 * x0,
                        x as int == x0 + 1,
                        0 <= x0,
                        e as int <= e0 + 8 + 8 * (x as int) + 4,
                {}
            }
        }
        proof {
            assert forall|i: int, j: int|
                0 <= i < old(canvas).pix_width() && 0 <= j < old(canvas).pix_height()
                    implies canvas.pix(i, j) == (if circle_fill_cover(
                    self.center,
                    self.radius,
                ).contains((i, j)) {
                    self.color.spec_is_on()
                } else {
                    old(canvas).pix(i, j)
                }) by {
                assert(circle_fill_cover(self.center, self.radius).contains((i, j))
                    == painted.contains((i, j)));
            }
        }
    }

    /// Plots the circle outline: the eight octant-symmetric points of each
    /// step.
    #[verifier::loop_isolation(false)]
    pub fn draw_outline<T: Blit>(&self, canvas: &mut T)
        requires
            old(canvas).blit_inv(),
            self.fits(),
        ensures
            paints(
                *old(canvas),
                *final(canvas),
                circle_ring_cover(self.center, self.radius),
                self.color,
            ),
    {
        let ghost r0i = abs1(self.radius as int);
        let r0: isize = if self.radius < 0 {
            -self.radius
        } else {
            self.radius
        };
        let cx = self.center.x;
        let cy = self.center.y;
        let mut x: i64 = 0;
        let mut y: i64 = r0 as i64;
        let mut e: i64 = 5 - 4 * (r0 as i64);
        let ghost mut painted: Set<(int, int)> = Set::empty();
        while x <= y
            invariant
                0 <= x,
                x <= y + 2,
                y <= r0i,
                -8 * r0i - 10 <= e as int,
                e as int <= 100 + 4 * (x as int) * (x as int) + 20 * (x as int),
                canvas.blit_inv(),
                canvas.pix_width() == old(canvas).pix_width(),
                canvas.pix_height() == old(canvas).pix_height(),
                canvas.rest() == old(canvas).rest(),
                forall|p: (int, int)| #[trigger]
                    circle_ring_cover(self.center, self.radius).contains(p) == (
                    painted.contains(p) || ring_from(
                        x as int,
                        y as int,
                        e as int,
                        p.0 - cx,
                        p.1 - cy,
                    )),
                forall|i: int, j: int|
                    0 <= i < old(canvas).pix_width() && 0 <= j < old(canvas).pix_height()
                        ==> canvas.pix(i, j) == (if painted.contains((i, j)) {
                        self.color.spec_is_on()
                    } else {
                        old(canvas).pix(i, j)
                    }),
            decreases y + 2 - x,
        {
            let ghost x0 = x as int;
            let ghost y0 = y as int;
            let ghost e0 = e as int;
            proof {
                assert(4 * x0 * x0 + 20 * x0 <= 4000000020000000000) by (nonlinear_arith)
                    requires
                        0 <= x0 <= 1000000000,
                {}
            }
            let xo = x as isize;
            let yo = y as isize;
            canvas.blit_pixel(cx + xo, cy + yo, self.color);
            canvas.blit_pixel(cx + xo, cy - yo, self.color);
            canvas.blit_pixel(cx - xo, cy + yo, self.color);
            canvas.blit_pixel(cx - xo, cy - yo, self.color);
            canvas.blit_pixel(cx + yo, cy + xo, self.color);
            canvas.blit_pixel(cx + yo, cy - xo, self.color);
            canvas.blit_pixel(cx - yo, cy + xo, self.color);
            canvas.blit_pixel(cx - yo, cy - xo, self.color);
            proof {
                let pts = Set::new(
                    |p: (int, int)|
                        (abs1(p.0 - cx) == x0 && abs1(p.1 - cy) == y0) || (abs1(p.0 - cx) == y0
                            && abs1(p.1 - cy) == x0),
                );
                painted = painted.union(pts);
                assert forall|i: int, j: int|
                    0 <= i < old(canvas).pix_width() && 0 <= j < old(canvas).pix_height()
                        implies canvas.pix(i, j) == (if painted.contains((i, j)) {
                        self.color.spec_is_on()
                    } else {
                        old(canvas).pix(i, j)
                    }) by {}
            }
            if e > 0 {
                y = y - 1;
                e = e - 8 * y;
            }
            x = x + 1;
            e = e + 8 * x + 4;
            proof {
                assert((x as int, y as int, e as int) == step_next(x0, y0, e0));
                assert forall|p: (int, int)| #[trigger]
                    circle_ring_cover(self.center, self.radius).contains(p) == (
                    painted.contains(p) || ring_from(
                        x as int,
                        y as int,
                        e as int,
                        p.0 - cx,
                        p.1 - cy,
                    )) by {
                    assert(ring_from(x0, y0, e0, p.0 - cx, p.1 - cy) == (((abs1(p.0 - cx) == x0
                        && abs1(p.1 - cy) == y0) || (abs1(p.0 - cx) == y0 && abs1(p.1 - cy) == x0))
                        || ring_from(x as int, y as int, e as int, p.0 - cx, p.1 - cy)));
                }
                assert(e as int <= 100 + 4 * (x as int) * (x as int) + 20 * (x as int))
                    by (nonlinear_arith)
                    requires
                        e0 <= 100 + 4 * x0 * x0 + 20 * x0,
                        x as int == x0 + 1,
                        0 <= x0,
                        e as int <= e0 + 8 + 8 * (x as int) + 4,
                {}
            }
        }
        proof {
            assert forall|i: int, j: int|
                0 <= i < old(canvas).pix_width() && 0 <= j < old(canvas).pix_height()
                    implies canvas.pix(i, j) == (if circle_ring_cover(
                    self.center,
                    self.radius,
                ).contains((i, j)) {
                    self.color.spec_is_on()
                } else {
                    old(canvas).pix(i, j)
                }) by {
                assert(circle_ring_cover(self.center, self.radius).contains((i, j))
                    == painted.contains((i, j)));
            }
        }
    }
}

} // verus!
