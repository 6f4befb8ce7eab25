//! Tonemapping: compress unbounded radiance into displayable range.
use crate::color::{rgb_bounded, rgb_nonneg, RGB};
use crate::fixed::{fp_div, fp_div_spec, FP_ONE};
use vstd::prelude::*;

verus! {

/// One channel through the simple compressive curve `c / (1 + c)`.
pub open spec fn simple_map_channel(c: int) -> int
    recommends
        c >= 0,
{
    fp_div_spec(c, FP_ONE + c)
}

/// The simple tonemap: each channel is compressed by `c / (1 + c)`, which
/// keeps it inside `[0, 1)`.
pub fn simple_map(color: &RGB) -> (r: RGB)
    requires
        rgb_nonneg(*color),
        rgb_bounded(*color, 0x7000_0000_0000_0000),
    ensures
        r.r == simple_map_channel(color.r as int),
        r.g == simple_map_channel(color.g as int),
        r.b == simple_map_channel(color.b as int),
        rgb_nonneg(r),
        rgb_bounded(r, FP_ONE as int),
{
    RGB {
        r: simple_channel(color.r),
        g: simple_channel(color.g),
        b: simple_channel(color.b),
    }
}

/// One compressed channel.
fn simple_channel(c: i64) -> (r: i64)
    requires
        0 <= c <= 0x7000_0000_0000_0000,
    ensures
        r == simple_map_channel(c as int),
        0 <= r <= FP_ONE,
{
    proof {
        let n = c as int * FP_ONE as int;
        let d = FP_ONE as int + c as int;
        vstd::arithmetic::div_mod::lemma_div_pos_is_pos(n, d);
        vstd::arithmetic::div_mod::lemma_div_is_ordered(n, d * FP_ONE, d);
        vstd::arithmetic::div_mod::lemma_div_multiples_vanish(FP_ONE as int, d);
        assert(n <= d * FP_ONE) by (nonlinear_arith)
            requires
                n == c as int * FP_ONE as int,
                d == FP_ONE as int + c as int,
                c >= 0,
                FP_ONE == 65536i64,
        ;
    }
    fp_div(c, FP_ONE + c)
}

} // verus!
