//! Flat RGB texture grids with nearest-neighbour texel lookup.
use crate::color::RGB;
use crate::fixed::{div_trunc, i64_div_trunc, FP_ONE};
use vstd::prelude::*;

verus! {

/// A texture: `width * height` texels in row-major order.
pub struct Texture {
    pub width: usize,
    pub height: usize,
    pub data: Vec<RGB>,
}

/// The texel grid matches the stated dimensions and holds colors in the
/// unit range.
pub open spec fn texture_wf(t: Texture) -> bool {
    &&& t.data.len() == t.width * t.height
    &&& 0 < t.width < 0x10000
    &&& 0 < t.height < 0x10000
    &&& forall|i: int|
        0 <= i < t.data.len() ==> crate::color::rgb_nonneg(#[trigger] t.data[i])
            && crate::color::rgb_bounded(t.data[i], FP_ONE as int)
}

/// The texel coordinate for a normalized coordinate: scaled, truncated and
/// clamped into the grid.
pub open spec fn texel_coord(u: int, extent: int) -> int {
    let x = div_trunc(u * extent, FP_ONE as int);
    if x < 0 {
        0
    } else if x >= extent {
        extent - 1
    } else {
        x
    }
}

impl Texture {
    pub fn new(width: usize, height: usize, data: Vec<RGB>) -> (t: Texture)
        requires
            data.len() == width * height,
            0 < width < 0x10000,
            0 < height < 0x10000,
            forall|i: int|
                0 <= i < data.len() ==> crate::color::rgb_nonneg(#[trigger] data[i])
                    && crate::color::rgb_bounded(data[i], FP_ONE as int),
        ensures
            texture_wf(t),
            t.width == width,
            t.height == height,
            t.data == data,
    {
        Texture { width, height, data }
    }

    /// Nearest-neighbour texel lookup by normalized coordinates;
    /// coordinates outside `[0, 1)` are clamped to the border.
    pub fn get_texel(&self, u: i64, v: i64) -> (c: RGB)
        requires
            texture_wf(*self),
            -0x1_0000_0000 <= u <= 0x1_0000_0000,
            -0x1_0000_0000 <= v <= 0x1_0000_0000,
        ensures
            c == self.data[texel_coord(v as int, self.height as int) * self.width + texel_coord(
                u as int,
                self.width as int,
            )],
            crate::color::rgb_nonneg(c),
            crate::color::rgb_bounded(c, FP_ONE as int),
    {
        let x = Self::coord(u, self.width);
        let y = Self::coord(v, self.height);
        proof {
            assert(y * self.width + x < self.height * self.width) by (nonlinear_arith)
                requires
                    0 <= y < self.height as int,
                    0 <= x < self.width as int,
            ;
            assert(self.height * self.width == self.width * self.height) by (nonlinear_arith);
            assert(0 <= y * self.width) by (nonlinear_arith)
                requires
                    0 <= y,
                    0 <= self.width as int,
            ;
        }
        self.data[y * self.width + x]
    }

    /// One clamped texel coordinate.
    fn coord(u: i64, extent: usize) -> (x: usize)
        requires
            0 < extent < 0x10000,
            -0x1_0000_0000 <= u <= 0x1_0000_0000,
        ensures
            x == texel_coord(u as int, extent as int),
            x < extent,
    {
        proof {
            crate::fixed::lemma_fp_mul_bound(u as int, extent as int, 0x1_0000_0000, 0x10000);
        }
        let s = crate::fixed::fp_mul(u, extent as i64);
        if s < 0 {
            0
        } else if s >= extent as i64 {
            extent - 1
        } else {
            s as usize
        }
    }
}

} // verus!
