//! Colors in fixed point: an RGB radiance triple and a packed RGBA pixel.
use crate::fixed::{div_trunc, fp_mul, fp_mul_spec, i64_div_trunc, FP_ONE};
use vstd::prelude::*;

verus! {

/// A radiance or reflectance triple; one fixed-point unit is full intensity.
#[derive(Clone, Copy, Debug, PartialEq, Eq, Structural)]
pub struct RGB {
    pub r: i64,
    pub g: i64,
    pub b: i64,
}

/// All three channels have magnitude at most `m`.
pub open spec fn rgb_bounded(c: RGB, m: int) -> bool {
    &&& -m <= c.r <= m
    &&& -m <= c.g <= m
    &&& -m <= c.b <= m
}

/// All three channels are nonnegative.
pub open spec fn rgb_nonneg(c: RGB) -> bool {
    c.r >= 0 && c.g >= 0 && c.b >= 0
}

impl RGB {
    pub fn new(r: i64, g: i64, b: i64) -> (c: RGB)
        ensures
            c == (RGB { r, g, b }),
    {
        RGB { r, g, b }
    }

    pub fn black() -> (c: RGB)
        ensures
            c == (RGB { r: 0i64, g: 0i64, b: 0i64 }),
    {
        RGB { r: 0, g: 0, b: 0 }
    }

    pub fn white() -> (c: RGB)
        ensures
            c == (RGB { r: FP_ONE, g: FP_ONE, b: FP_ONE }),
    {
        RGB { r: FP_ONE, g: FP_ONE, b: FP_ONE }
    }

    /// Channelwise sum.
    pub fn add(&self, other: &RGB) -> (c: RGB)
        requires
            i64::MIN <= self.r + other.r <= i64::MAX,
            i64::MIN <= self.g + other.g <= i64::MAX,
            i64::MIN <= self.b + other.b <= i64::MAX,
        ensures
            c.r == self.r + other.r,
            c.g == self.g + other.g,
            c.b == self.b + other.b,
    {
        RGB { r: self.r + other.r, g: self.g + other.g, b: self.b + other.b }
    }

    /// Channelwise fixed-point product (filtering one color by another).
    pub fn mul(&self, other: &RGB) -> (c: RGB)
        requires
            i64::MIN <= fp_mul_spec(self.r as int, other.r as int) <= i64::MAX,
            i64::MIN <= fp_mul_spec(self.g as int, other.g as int) <= i64::MAX,
            i64::MIN <= fp_mul_spec(self.b as int, other.b as int) <= i64::MAX,
        ensures
            c.r == fp_mul_spec(self.r as int, other.r as int),
            c.g == fp_mul_spec(self.g as int, other.g as int),
            c.b == fp_mul_spec(self.b as int, other.b as int),
    {
        RGB {
            r: fp_mul(self.r, other.r),
            g: fp_mul(self.g, other.g),
            b: fp_mul(self.b, other.b),
        }
    }

    /// Scale all channels by a fixed-point factor.
    pub fn scale(&self, s: i64) -> (c: RGB)
        requires
            i64::MIN <= fp_mul_spec(self.r as int, s as int) <= i64::MAX,
            i64::MIN <= fp_mul_spec(self.g as int, s as int) <= i64::MAX,
            i64::MIN <= fp_mul_spec(self.b as int, s as int) <= i64::MAX,
        ensures
            c.r == fp_mul_spec(self.r as int, s as int),
            c.g == fp_mul_spec(self.g as int, s as int),
            c.b == fp_mul_spec(self.b as int, s as int),
    {
        RGB { r: fp_mul(self.r, s), g: fp_mul(self.g, s), b: fp_mul(self.b, s) }
    }
}

/// A color with an opacity channel, ready for packing.
#[derive(Clone, Copy, Debug, PartialEq, Eq, Structural)]
pub struct RGBA {
    pub r: i64,
    pub g: i64,
    pub b: i64,
    pub a: i64,
}

/// A channel clamped to `[0, 1]` and quantized to a byte.
pub open spec fn channel_byte(c: int) -> int {
    let clamped = if c < 0 {
        0
    } else if c > FP_ONE {
        FP_ONE as int
    } else {
        c
    };
    div_trunc(clamped * 255, FP_ONE as int)
}

impl RGBA {
    pub fn new(r: i64, g: i64, b: i64, a: i64) -> (c: RGBA)
        ensures
            c == (RGBA { r, g, b, a }),
    {
        RGBA { r, g, b, a }
    }

    pub fn from_rgb(rgb: RGB, a: i64) -> (c: RGBA)
        ensures
            c == (RGBA { r: rgb.r, g: rgb.g, b: rgb.b, a }),
    {
        RGBA { r: rgb.r, g: rgb.g, b: rgb.b, a }
    }

    /// Pack into one 32-bit pixel, blue in the low byte, then green, red and
    /// opacity: the layout the display consumer decodes.
    pub fn to_u32(&self) -> (p: u32)
        ensures
            p == channel_byte(self.b as int) + channel_byte(self.g as int) * 0x100 + channel_byte(
                self.r as int,
            ) * 0x1_0000 + channel_byte(self.a as int) * 0x100_0000,
    {
        let r = Self::channel_byte_exec(self.r);
        let g = Self::channel_byte_exec(self.g);
        let b = Self::channel_byte_exec(self.b);
        let a = Self::channel_byte_exec(self.a);
        b + g * 0x100 + r * 0x1_0000 + a * 0x100_0000
    }

    /// Clamp and quantize one channel.
    fn channel_byte_exec(c: i64) -> (v: u32)
        ensures
            v == channel_byte(c as int),
            v <= 255,
    {
        let clamped = if c < 0 {
            0
        } else if c > FP_ONE {
            FP_ONE
        } else {
            c
        };
        proof {
            vstd::arithmetic::div_mod::lemma_div_pos_is_pos(clamped as int * 255, FP_ONE as int);
            vstd::arithmetic::div_mod::lemma_div_is_ordered(
                clamped as int * 255,
                FP_ONE as int * 255,
                FP_ONE as int,
            );
            vstd::arithmetic::div_mod::lemma_div_multiples_vanish(255, FP_ONE as int);
            assert(FP_ONE as int * 255 == FP_ONE as int * 255int) by (nonlinear_arith);
        }
        (i64_div_trunc(clamped * 255, FP_ONE)) as u32
    }
}

} // verus!
