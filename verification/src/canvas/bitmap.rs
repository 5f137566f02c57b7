//! Blitting a static monochrome image: its black pixels are painted on,
//! its background pixels leave the surface untouched. Either axis can be
//! mirrored.

use crate::canvas::blit::{paints, Blit};
use crate::color::Color;
use crate::vec2::Vec2;
use vstd::prelude::*;

verus! {

/// A monochrome stamp (row-major cells, `true` is black) placed at a
/// position, optionally mirrored horizontally or vertically.
pub struct Bitmap {
    pub width: usize,
    pub height: usize,
    pub data: Vec<bool>,
    pub position: Vec2<isize>,
    pub flip_h: bool,
    pub flip_v: bool,
}

/// The surface column a stamp cell column `u` lands on.
pub open spec fn bitmap_sx(bm: Bitmap, u: int) -> int {
    if bm.flip_h {
        bm.position.x + bm.width - 1 - u
    } else {
        bm.position.x + u
    }
}

/// The surface row a stamp cell row `v` lands on.
pub open spec fn bitmap_sy(bm: Bitmap, v: int) -> int {
    if bm.flip_v {
        bm.position.y + bm.height - 1 - v
    } else {
        bm.position.y + v
    }
}

/// The coordinates where the stamp puts a black pixel.
pub open spec fn bitmap_cover(bm: Bitmap) -> Set<(int, int)> {
    Set::new(
        |p: (int, int)|
            exists|u: int, v: int|
                0 <= u < bm.width && 0 <= v < bm.height && bm.data@[v * bm.width + u] && p
                    == (bitmap_sx(bm, u), bitmap_sy(bm, v)),
    )
}

/// The black coordinates of the first `v` stamp rows.
spec fn bitmap_cover_rows(bm: Bitmap, v: int) -> Set<(int, int)> {
    Set::new(
        |p: (int, int)|
            exists|uu: int, vv: int|
                0 <= uu < bm.width && 0 <= vv < v && bm.data@[vv * bm.width + uu] && p == (
                bitmap_sx(bm, uu),
                bitmap_sy(bm, vv),
                ),
    )
}

/// The black coordinates of row `v` left of column `u`.
spec fn bitmap_row_prefix(bm: Bitmap, v: int, u: int) -> Set<(int, int)> {
    Set::new(
        |p: (int, int)|
            exists|uu: int|
                0 <= uu < u && bm.data@[v * bm.width + uu] && p == (
                bitmap_sx(bm, uu),
                bitmap_sy(bm, v),
                ),
    )
}

impl Bitmap {
    /// The cell vector holds one cell per pixel of the stamp.
    pub open spec fn wf(&self) -> bool {
        self.data@.len() == self.width * self.height
    }

    /// Builds a stamp shape from its size, row-major cells and position,
    /// unmirrored.
    pub fn new(width: usize, height: usize, data: Vec<bool>, position: Vec2<isize>) -> (r: Self)
        requires
            data@.len() == width * height,
        ensures
            r.width == width,
            r.height == height,
            r.data == data,
            r.position == position,
            !r.flip_h,
            !r.flip_v,
            r.wf(),
    {
        Bitmap { width, height, data, position, flip_h: false, flip_v: false }
    }

    /// Toggles horizontal mirroring.
    pub fn flip_h(self) -> (r: Self)
        ensures
            r == (Bitmap { flip_h: !self.flip_h, ..self }),
    {
        Bitmap { flip_h: !self.flip_h, ..self }
    }

    /// Toggles vertical mirroring.
    pub fn flip_v(self) -> (r: Self)
        ensures
            r == (Bitmap { flip_v: !self.flip_v, ..self }),
    {
        Bitmap { flip_v: !self.flip_v, ..self }
    }

    /// Paints the stamp's black pixels on; background cells and
    /// out-of-range positions change nothing. The stamp must land within
    /// the coordinate type.
    #[verifier::loop_isolation(false)]
    pub fn draw<T: Blit>(&self, canvas: &mut T)
        requires
            old(canvas).blit_inv(),
            self.wf(),
            self.width <= isize::MAX,
            self.height <= isize::MAX,
            self.position.x + self.width <= isize::MAX,
            self.position.y + self.height <= isize::MAX,
        ensures
            paints(*old(canvas), *final(canvas), bitmap_cover(*self), Color::On),
    {
        let dlen: usize = self.data.len();
        let mut v: usize = 0;
        while v < self.height
            invariant
                v <= self.height,
                canvas.blit_inv(),
                canvas.pix_width() == old(canvas).pix_width(),
                canvas.pix_height() == old(canvas).pix_height(),
                canvas.rest() == old(canvas).rest(),
                forall|i: int, j: int|
                    0 <= i < old(canvas).pix_width() && 0 <= j < old(canvas).pix_height()
                        ==> canvas.pix(i, j) == (if bitmap_cover_rows(*self, v as int).contains(
                        (i, j),
                    ) {
                        true
                    } else {
                        old(canvas).pix(i, j)
                    }),
            decreases self.height - v,
        {
            let mut u: usize = 0;
            while u < self.width
                invariant
                    v < self.height,
                    u <= self.width,
                    canvas.blit_inv(),
                    canvas.pix_width() == old(canvas).pix_width(),
                    canvas.pix_height() == old(canvas).pix_height(),
                    canvas.rest() == old(canvas).rest(),
                    forall|i: int, j: int|
                        0 <= i < old(canvas).pix_width() && 0 <= j < old(canvas).pix_height()
                            ==> canvas.pix(i, j) == (if bitmap_cover_rows(*self, v as int).union(
                            bitmap_row_prefix(*self, v as int, u as int),
                        ).contains((i, j)) {
                            true
                        } else {
                            old(canvas).pix(i, j)
                        }),
                decreases self.width - u,
            {
                let ghost prepainted = bitmap_cover_rows(*self, v as int).union(
                    bitmap_row_prefix(*self, v as int, u as int),
                );
                proof {
                    vstd::arithmetic::mul::lemma_mul_inequality(
                        v as int + 1,
                        self.height as int,
                        self.width as int,
                    );
                    vstd::arithmetic::mul::lemma_mul_is_distributive_add_other_way(
                        self.width as int,
                        v as int,
                        1,
                    );
                    vstd::arithmetic::mul::lemma_mul_is_commutative(
                        self.height as int,
                        self.width as int,
                    );
                    assert(v as int * self.width + u < self.data@.len());
                    assert(self.data@.len() == dlen);
                }
                if self.data[v * self.width + u] {
                    let sx: isize = if self.flip_h {
                        self.position.x + ((self.width - 1 - u) as isize)
                    } else {
                        self.position.x + (u as isize)
                    };
                    let sy: isize = if self.flip_v {
                        self.position.y + ((self.height - 1 - v) as isize)
                    } else {
                        self.position.y + (v as isize)
                    };
                    let ghost pre = *canvas;
                    canvas.blit_pixel(sx, sy, Color::On);
                    proof {
                        assert(sx as int == bitmap_sx(*self, u as int));
                        assert(sy as int == bitmap_sy(*self, v as int));
                        assert forall|i: int, j: int|
                            0 <= i < old(canvas).pix_width() && 0 <= j < old(
                                canvas,
                            ).pix_height() implies canvas.pix(i, j) == (if bitmap_cover_rows(
                            *self,
                            v as int,
                        ).union(bitmap_row_prefix(*self, v as int, u as int + 1)).contains(
                            (i, j),
                        ) {
                            true
                        } else {
                            old(canvas).pix(i, j)
                        }) by {
                            let painted = bitmap_cover_rows(*self, v as int).union(
                                bitmap_row_prefix(*self, v as int, u as int + 1),
                            );
                            if painted.contains((i, j)) && !prepainted.contains((i, j)) && !(i
                                == sx as int && j == sy as int) {
                                let (uu, vv) = choose|uu: int, vv: int|
                                    0 <= uu < self.width && 0 <= vv < v as int + 1
                                        && self.data@[vv * self.width + uu] && (i, j) == (
                                    bitmap_sx(*self, uu),
                                    bitmap_sy(*self, vv),
                                    );
                                assert(false);
                            }
                        }
                    }
                } else {
                    proof {
                        assert forall|i: int, j: int|
                            0 <= i < old(canvas).pix_width() && 0 <= j < old(
                                canvas,
                            ).pix_height() implies canvas.pix(i, j) == (if bitmap_cover_rows(
                            *self,
                            v as int,
                        ).union(bitmap_row_prefix(*self, v as int, u as int + 1)).contains(
                            (i, j),
                        ) {
                            true
                        } else {
                            old(canvas).pix(i, j)
                        }) by {
                            let painted = bitmap_cover_rows(*self, v as int).union(
                                bitmap_row_prefix(*self, v as int, u as int + 1),
                            );
                            if painted.contains((i, j)) && !prepainted.contains((i, j)) {
                                assert(false);
                            }
                        }
                    }
                }
                u = u + 1;
            }
            proof {
                assert(bitmap_cover_rows(*self, v as int).union(
                    bitmap_row_prefix(*self, v as int, self.width as int),
                ) =~= bitmap_cover_rows(*self, v as int + 1));
            }
            v = v + 1;
        }
        proof {
            assert(bitmap_cover_rows(*self, self.height as int) =~= bitmap_cover(*self));
            assert forall|i: int, j: int|
                0 <= i < old(canvas).pix_width() && 0 <= j < old(canvas).pix_height()
                    implies canvas.pix(i, j) == (if bitmap_cover(*self).contains((i, j)) {
                    Color::On.spec_is_on()
                } else {
                    old(canvas).pix(i, j)
                }) by {}
        }
    }
}

} // verus!
