//! The film: a per-pixel running sum of radiance samples with a sample
//! count. Accumulation is exact integer addition, so the mean over any set
//! of samples does not depend on the order they arrive in.
use crate::color::{rgb_bounded, rgb_nonneg, RGB};
use crate::fixed::i64_div_trunc;
use vstd::prelude::*;

verus! {

/// The largest channel value a single sample may carry.
pub const SAMPLE_ABS_MAX: i64 = 0x100_0000;

/// One pixel: the channelwise sum of its samples and how many arrived.
#[derive(Clone, Copy, Debug, PartialEq, Eq, Structural)]
pub struct PixelData {
    pub pixel_sum: RGB,
    pub num_samples: u32,
}

/// The pixel's sums stay within what its sample count allows.
pub open spec fn pixel_wf(p: PixelData) -> bool {
    &&& 0 <= p.pixel_sum.r <= p.num_samples * SAMPLE_ABS_MAX
    &&& 0 <= p.pixel_sum.g <= p.num_samples * SAMPLE_ABS_MAX
    &&& 0 <= p.pixel_sum.b <= p.num_samples * SAMPLE_ABS_MAX
}

/// A pixel with no samples.
pub open spec fn empty_pixel() -> PixelData {
    PixelData { pixel_sum: RGB { r: 0i64, g: 0i64, b: 0i64 }, num_samples: 0u32 }
}

impl PixelData {
    /// A pixel with no samples.
    pub fn empty() -> (p: PixelData)
        ensures
            p == empty_pixel(),
    {
        PixelData { pixel_sum: RGB { r: 0, g: 0, b: 0 }, num_samples: 0 }
    }

    /// Add one radiance sample. Once the sample counter is exhausted the
    /// pixel stays as it is.
    pub fn add_sample(&mut self, rgb: RGB)
        requires
            pixel_wf(*old(self)),
            rgb_nonneg(rgb),
            rgb_bounded(rgb, SAMPLE_ABS_MAX as int),
        ensures
            pixel_wf(*final(self)),
            old(self).num_samples < u32::MAX ==> (final(self).num_samples == old(self).num_samples
                + 1 && final(self).pixel_sum.r == old(self).pixel_sum.r + rgb.r && final(self).pixel_sum.g == old(self).pixel_sum.g + rgb.g && final(self).pixel_sum.b == old(self).pixel_sum.b + rgb.b),
            old(self).num_samples == u32::MAX ==> *final(self) == *old(self),
    {
        if self.num_samples == u32::MAX {
            return ;
        }
        proof {
            let n = old(self).num_samples as int;
            assert((n + 1) * SAMPLE_ABS_MAX == n * SAMPLE_ABS_MAX + SAMPLE_ABS_MAX)
                by (nonlinear_arith);
            assert(n * SAMPLE_ABS_MAX <= 0x100_0000_0000_0000_0000int * 2) by (nonlinear_arith)
                requires
                    n <= u32::MAX,
                    SAMPLE_ABS_MAX == 0x100_0000i64,
            ;
        }
        self.pixel_sum.r = self.pixel_sum.r + rgb.r;
        self.pixel_sum.g = self.pixel_sum.g + rgb.g;
        self.pixel_sum.b = self.pixel_sum.b + rgb.b;
        self.num_samples = self.num_samples + 1;
    }

    /// The mean of the accumulated samples; a pixel without samples is
    /// black.
    pub fn mean(&self) -> (c: RGB)
        requires
            pixel_wf(*self),
        ensures
            c == pixel_mean(*self),
    {
        if self.num_samples == 0 {
            RGB { r: 0, g: 0, b: 0 }
        } else {
            let n = self.num_samples as i64;
            RGB {
                r: i64_div_trunc(self.pixel_sum.r, n),
                g: i64_div_trunc(self.pixel_sum.g, n),
                b: i64_div_trunc(self.pixel_sum.b, n),
            }
        }
    }
}

/// The mean of a pixel's samples, channelwise; black when no samples came.
pub open spec fn pixel_mean(p: PixelData) -> RGB {
    if p.num_samples == 0 {
        RGB { r: 0i64, g: 0i64, b: 0i64 }
    } else {
        RGB {
            r: crate::fixed::div_trunc(p.pixel_sum.r as int, p.num_samples as int) as i64,
            g: crate::fixed::div_trunc(p.pixel_sum.g as int, p.num_samples as int) as i64,
            b: crate::fixed::div_trunc(p.pixel_sum.b as int, p.num_samples as int) as i64,
        }
    }
}

/// The film: one `PixelData` per pixel.
pub struct Film {
    pub pixel_datas: Vec<PixelData>,
}

/// Every pixel of the film is well formed.
pub open spec fn film_wf(f: Film) -> bool {
    forall|i: int| 0 <= i < f.pixel_datas.len() ==> pixel_wf(#[trigger] f.pixel_datas[i])
}

impl Film {
    /// A film of `size` pixels, all black with no samples.
    pub fn new(size: usize) -> (f: Film)
        ensures
            f.pixel_datas.len() == size,
            forall|i: int| 0 <= i < size ==> #[trigger] f.pixel_datas[i] == empty_pixel(),
            film_wf(f),
    {
        let mut pixel_datas: Vec<PixelData> = Vec::new();
        let mut k: usize = 0;
        while k < size
            invariant
                k == pixel_datas.len() <= size,
                forall|i: int|
                    0 <= i < k ==> #[trigger] pixel_datas[i] == (PixelData {
                        pixel_sum: RGB { r: 0i64, g: 0i64, b: 0i64 },
                        num_samples: 0u32,
                    }),
            decreases size - k,
        {
            pixel_datas.push(PixelData { pixel_sum: RGB { r: 0, g: 0, b: 0 }, num_samples: 0 });
            k = k + 1;
        }
        Film { pixel_datas }
    }

    /// Reset every pixel to the no-sample state, so that the mean of every
    /// pixel is black again. Mandatory whenever the camera moves.
    pub fn clear(&mut self)
        ensures
            final(self).pixel_datas.len() == old(self).pixel_datas.len(),
            forall|i: int|
                0 <= i < final(self).pixel_datas.len() ==> #[trigger] final(self).pixel_datas[i]
                    == empty_pixel(),
            forall|i: int|
                0 <= i < final(self).pixel_datas.len() ==> pixel_mean(
                    #[trigger] final(self).pixel_datas[i],
                ) == (RGB { r: 0i64, g: 0i64, b: 0i64 }),
            film_wf(*final(self)),
    {
        let n = self.pixel_datas.len();
        let mut k: usize = 0;
        while k < n
            invariant
                n == self.pixel_datas.len(),
                k <= n,
                forall|i: int|
                    0 <= i < k ==> #[trigger] self.pixel_datas[i] == (PixelData {
                        pixel_sum: RGB { r: 0i64, g: 0i64, b: 0i64 },
                        num_samples: 0u32,
                    }),
            decreases n - k,
        {
            self.pixel_datas.set(
                k,
                PixelData { pixel_sum: RGB { r: 0, g: 0, b: 0 }, num_samples: 0 },
            );
            k = k + 1;
        }
    }

    /// Add one sample to the pixel at `idx`.
    pub fn add_sample(&mut self, idx: usize, rgb: RGB)
        requires
            film_wf(*old(self)),
            idx < old(self).pixel_datas.len(),
            rgb_nonneg(rgb),
            rgb_bounded(rgb, SAMPLE_ABS_MAX as int),
        ensures
            film_wf(*final(self)),
            final(self).pixel_datas.len() == old(self).pixel_datas.len(),
            forall|i: int|
                0 <= i < old(self).pixel_datas.len() && i != idx ==> #[trigger] final(self).pixel_datas[i] == old(self).pixel_datas[i],
            old(self).pixel_datas[idx as int].num_samples < u32::MAX ==> (final(self).pixel_datas[idx as int].num_samples == old(self).pixel_datas[idx as int].num_samples
                + 1 && final(self).pixel_datas[idx as int].pixel_sum.r == old(self).pixel_datas[idx as int].pixel_sum.r + rgb.r && final(self).pixel_datas[idx as int].pixel_sum.g == old(self).pixel_datas[idx as int].pixel_sum.g + rgb.g && final(self).pixel_datas[idx as int].pixel_sum.b == old(self).pixel_datas[idx as int].pixel_sum.b + rgb.b),
            old(self).pixel_datas[idx as int].num_samples == u32::MAX ==> final(self).pixel_datas[idx as int] == old(self).pixel_datas[idx as int],
    {
        let mut p = self.pixel_datas[idx];
        p.add_sample(rgb);
        self.pixel_datas.set(idx, p);
    }

    /// The mean of every pixel, the tonemap input.
    pub fn get_pixels(&self) -> (v: Vec<RGB>)
        requires
            film_wf(*self),
        ensures
            v.len() == self.pixel_datas.len(),
            forall|i: int|
                0 <= i < v.len() ==> #[trigger] v[i] == pixel_mean(self.pixel_datas[i]),
    {
        let n = self.pixel_datas.len();
        let mut v: Vec<RGB> = Vec::new();
        let mut k: usize = 0;
        while k < n
            invariant
                n == self.pixel_datas.len(),
                k == v.len() <= n,
                film_wf(*self),
                forall|i: int| 0 <= i < k ==> #[trigger] v[i] == pixel_mean(self.pixel_datas[i]),
            decreases n - k,
        {
            let p = self.pixel_datas[k];
            v.push(p.mean());
            k = k + 1;
        }
        v
    }
}

/// The channelwise sum of a sequence of samples.
pub open spec fn sum3(s: Seq<(int, int, int)>) -> (int, int, int)
    decreases s.len(),
{
    if s.len() == 0 {
        (0, 0, 0)
    } else {
        let rest = sum3(s.drop_last());
        (rest.0 + s.last().0, rest.1 + s.last().1, rest.2 + s.last().2)
    }
}

/// Removing an element takes exactly its value out of the sum.
proof fn lemma_sum3_remove(s: Seq<(int, int, int)>, i: int)
    requires
        0 <= i < s.len(),
    ensures
        sum3(s).0 == sum3(s.remove(i)).0 + s[i].0,
        sum3(s).1 == sum3(s.remove(i)).1 + s[i].1,
        sum3(s).2 == sum3(s.remove(i)).2 + s[i].2,
    decreases s.len(),
{
    if i == s.len() - 1 {
        assert(s.remove(i) =~= s.drop_last());
    } else {
        let t = s.drop_last();
        lemma_sum3_remove(t, i);
        assert(s.remove(i).drop_last() =~= t.remove(i));
        assert(s.remove(i).last() == s.last());
        assert(sum3(s.remove(i)).0 == sum3(t.remove(i)).0 + s.last().0);
    }
}

/// Film accumulation is associative and commutative in sample order: two
/// sample sequences with the same multiset of samples have the same sum,
/// and therefore the same mean at any pixel.
pub proof fn lemma_sample_order_irrelevant(s1: Seq<(int, int, int)>, s2: Seq<(int, int, int)>)
    requires
        s1.to_multiset() == s2.to_multiset(),
    ensures
        sum3(s1) == sum3(s2),
    decreases s1.len(),
{
    broadcast use vstd::seq_lib::group_to_multiset_ensures;

    if s1.len() == 0 {
        assert(s1.to_multiset().len() == 0);
        assert(s2.len() == 0);
    } else {
        let x = s1.last();
        let i1 = s1.len() - 1;
        assert(s1[i1] == x);
        assert(s1.to_multiset().count(x) > 0);
        assert(s2.to_multiset().count(x) > 0);
        assert(s2.contains(x));
        let j = choose|j: int| 0 <= j < s2.len() && s2[j] == x;
        lemma_sum3_remove(s1, i1);
        lemma_sum3_remove(s2, j);
        assert(s1.remove(i1).to_multiset() =~= s1.to_multiset().remove(x));
        assert(s2.remove(j).to_multiset() =~= s2.to_multiset().remove(x));
        lemma_sample_order_irrelevant(s1.remove(i1), s2.remove(j));
    }
}

} // verus!
