//! Three-dimensional vectors, homogeneous vectors and 4x4 matrices over
//! fixed-point numbers, with exact contracts for every operation.
use crate::fixed::{
    div_trunc, fp_div, fp_div_spec, fp_mul, fp_mul_spec, fp_sqrt, i128_div_trunc, i64_div_trunc,
    is_sqrt_floor, FP_ONE,
};
use vstd::prelude::*;

verus! {

/// A point or direction in space, in fixed-point coordinates.
#[derive(Clone, Copy, Debug, PartialEq, Eq, Structural)]
pub struct Vec3 {
    pub x: i64,
    pub y: i64,
    pub z: i64,
}

/// A ray: origin and (not necessarily normalized) direction.
#[derive(Clone, Copy, Debug, PartialEq, Eq, Structural)]
pub struct Ray {
    pub pos: Vec3,
    pub dir: Vec3,
}

impl Ray {
    pub fn new(pos: Vec3, dir: Vec3) -> (r: Ray)
        ensures
            r.pos == pos,
            r.dir == dir,
    {
        Ray { pos, dir }
    }
}

/// Every component has magnitude at most `b`.
pub open spec fn v3_bounded(v: Vec3, b: int) -> bool {
    &&& -b <= v.x <= b
    &&& -b <= v.y <= b
    &&& -b <= v.z <= b
}

/// The component bound under which products of two vector components,
/// summed three or four times, still fit an `i128`.
pub const VEC_ABS_MAX: i64 = 0x4000_0000_0000_0000;

/// The fixed-point dot product, rounded toward zero once.
pub open spec fn dot_spec(v0: Vec3, v1: Vec3) -> int {
    div_trunc(v0.x * v1.x + v0.y * v1.y + v0.z * v1.z, FP_ONE as int)
}

/// The fixed-point cross product, each component rounded toward zero once.
pub open spec fn cross_spec(v0: Vec3, v1: Vec3) -> (int, int, int) {
    (
        div_trunc(v0.y * v1.z - v0.z * v1.y, FP_ONE as int),
        div_trunc(v0.z * v1.x - v0.x * v1.z, FP_ONE as int),
        div_trunc(v0.x * v1.y - v0.y * v1.x, FP_ONE as int),
    )
}

/// Widening product of two components, with the bound the callers sum under.
pub fn mul_wide(a: i64, b: i64) -> (r: i128)
    requires
        -VEC_ABS_MAX <= a <= VEC_ABS_MAX,
        -VEC_ABS_MAX <= b <= VEC_ABS_MAX,
    ensures
        r == a as int * b as int,
        -0x1000_0000_0000_0000_0000_0000_0000_0000i128 <= r
            <= 0x1000_0000_0000_0000_0000_0000_0000_0000i128,
{
    proof {
        assert(-0x1000_0000_0000_0000_0000_0000_0000_0000i128 <= a as int * b as int
            <= 0x1000_0000_0000_0000_0000_0000_0000_0000i128) by (nonlinear_arith)
            requires
                -0x4000_0000_0000_0000i64 <= a <= 0x4000_0000_0000_0000i64,
                -0x4000_0000_0000_0000i64 <= b <= 0x4000_0000_0000_0000i64,
        ;
    }
    (a as i128) * (b as i128)
}

/// Fixed-point dot product.
pub fn dot(v0: &Vec3, v1: &Vec3) -> (r: i64)
    requires
        v3_bounded(*v0, VEC_ABS_MAX as int),
        v3_bounded(*v1, VEC_ABS_MAX as int),
        i64::MIN <= dot_spec(*v0, *v1) <= i64::MAX,
    ensures
        r == dot_spec(*v0, *v1),
{
    let s = mul_wide(v0.x, v1.x) + mul_wide(v0.y, v1.y) + mul_wide(v0.z, v1.z);
    i128_div_trunc(s, FP_ONE as i128) as i64
}

/// Fixed-point cross product.
pub fn cross(v0: &Vec3, v1: &Vec3) -> (r: Vec3)
    requires
        v3_bounded(*v0, VEC_ABS_MAX as int),
        v3_bounded(*v1, VEC_ABS_MAX as int),
        i64::MIN <= cross_spec(*v0, *v1).0 <= i64::MAX,
        i64::MIN <= cross_spec(*v0, *v1).1 <= i64::MAX,
        i64::MIN <= cross_spec(*v0, *v1).2 <= i64::MAX,
    ensures
        r.x == cross_spec(*v0, *v1).0,
        r.y == cross_spec(*v0, *v1).1,
        r.z == cross_spec(*v0, *v1).2,
{
    let x = i128_div_trunc(mul_wide(v0.y, v1.z) - mul_wide(v0.z, v1.y), FP_ONE as i128) as i64;
    let y = i128_div_trunc(mul_wide(v0.z, v1.x) - mul_wide(v0.x, v1.z), FP_ONE as i128) as i64;
    let z = i128_div_trunc(mul_wide(v0.x, v1.y) - mul_wide(v0.y, v1.x), FP_ONE as i128) as i64;
    Vec3 { x, y, z }
}

/// Halve all components until the magnitude witness drops to the safe range;
/// this keeps the direction while making squares summable.
pub open spec fn shrink3_spec(x: int, y: int, z: int, m: int) -> (int, int, int)
    decreases m,
{
    if m > 0x4000_0000 {
        shrink3_spec(
            div_trunc(x, 2),
            div_trunc(y, 2),
            div_trunc(z, 2),
            if div_trunc(m, 2) < m {
                div_trunc(m, 2)
            } else {
                0
            },
        )
    } else {
        (x, y, z)
    }
}

/// Magnitude of an integer.
pub open spec fn abs_i(a: int) -> int {
    if a >= 0 {
        a
    } else {
        -a
    }
}

/// The larger of two integers.
pub open spec fn max_i(a: int, b: int) -> int {
    if a >= b {
        a
    } else {
        b
    }
}

/// The smaller of two integers.
pub open spec fn min_i(a: int, b: int) -> int {
    if a <= b {
        a
    } else {
        b
    }
}

/// The normalized direction of `v`: shrink, measure, then divide, with the
/// result clamped to four units. Vectors whose squared length rounds to
/// zero come out as the zero vector.
pub open spec fn normalized_spec(v: Vec3) -> (int, int, int) {
    let m = max_i(abs_i(v.x as int), max_i(abs_i(v.y as int), abs_i(v.z as int)));
    let (sx, sy, sz) = shrink3_spec(v.x as int, v.y as int, v.z as int, m);
    let d = div_trunc(sx * sx + sy * sy + sz * sz, FP_ONE as int);
    let len = sqrt_len(d);
    if len <= 0 {
        (0, 0, 0)
    } else {
        (
            clamp4(fp_div_spec(sx, len)),
            clamp4(fp_div_spec(sy, len)),
            clamp4(fp_div_spec(sz, len)),
        )
    }
}

/// The unique integer square root of `d * FP_ONE`.
pub open spec fn sqrt_len(d: int) -> int {
    choose|r: int| #[trigger] is_sqrt_floor(d * FP_ONE, r)
}

/// Clamp to at most four fixed-point units in magnitude.
pub open spec fn clamp4(a: int) -> int {
    if a > 4 * FP_ONE {
        4 * FP_ONE as int
    } else if a < -4 * FP_ONE {
        -4 * FP_ONE as int
    } else {
        a
    }
}

impl Vec3 {
    pub fn new(x: i64, y: i64, z: i64) -> (r: Vec3)
        ensures
            r == (Vec3 { x, y, z }),
    {
        Vec3 { x, y, z }
    }

    /// Componentwise sum.
    pub fn add(&self, other: &Vec3) -> (r: Vec3)
        requires
            i64::MIN <= self.x + other.x <= i64::MAX,
            i64::MIN <= self.y + other.y <= i64::MAX,
            i64::MIN <= self.z + other.z <= i64::MAX,
        ensures
            r.x == self.x + other.x,
            r.y == self.y + other.y,
            r.z == self.z + other.z,
    {
        Vec3 { x: self.x + other.x, y: self.y + other.y, z: self.z + other.z }
    }

    /// Componentwise difference.
    pub fn sub(&self, other: &Vec3) -> (r: Vec3)
        requires
            i64::MIN <= self.x - other.x <= i64::MAX,
            i64::MIN <= self.y - other.y <= i64::MAX,
            i64::MIN <= self.z - other.z <= i64::MAX,
        ensures
            r.x == self.x - other.x,
            r.y == self.y - other.y,
            r.z == self.z - other.z,
    {
        Vec3 { x: self.x - other.x, y: self.y - other.y, z: self.z - other.z }
    }

    /// Componentwise negation.
    pub fn neg(&self) -> (r: Vec3)
        requires
            self.x > i64::MIN,
            self.y > i64::MIN,
            self.z > i64::MIN,
        ensures
            r.x == -self.x,
            r.y == -self.y,
            r.z == -self.z,
    {
        Vec3 { x: -self.x, y: -self.y, z: -self.z }
    }

    /// Scale by a fixed-point factor.
    pub fn scale(&self, s: i64) -> (r: Vec3)
        requires
            i64::MIN <= fp_mul_spec(self.x as int, s as int) <= i64::MAX,
            i64::MIN <= fp_mul_spec(self.y as int, s as int) <= i64::MAX,
            i64::MIN <= fp_mul_spec(self.z as int, s as int) <= i64::MAX,
        ensures
            r.x == fp_mul_spec(self.x as int, s as int),
            r.y == fp_mul_spec(self.y as int, s as int),
            r.z == fp_mul_spec(self.z as int, s as int),
    {
        Vec3 { x: fp_mul(self.x, s), y: fp_mul(self.y, s), z: fp_mul(self.z, s) }
    }

    /// The direction of `self` with length one (up to rounding); exact per
    /// `normalized_spec`, and always within four units per component.
    pub fn normalized(&self) -> (r: Vec3)
        requires
            v3_bounded(*self, VEC_ABS_MAX as int),
        ensures
            (r.x as int, r.y as int, r.z as int) == normalized_spec(*self),
            v3_bounded(r, 4 * FP_ONE as int),
    {
        let ax = if self.x >= 0 {
            self.x
        } else {
            -self.x
        };
        let ay = if self.y >= 0 {
            self.y
        } else {
            -self.y
        };
        let az = if self.z >= 0 {
            self.z
        } else {
            -self.z
        };
        let mut m = ax;
        if m < ay {
            m = ay;
        }
        if m < az {
            m = az;
        }
        let ghost m0 = m as int;
        let mut sx = self.x;
        let mut sy = self.y;
        let mut sz = self.z;
        while m > 0x4000_0000
            invariant
                0 <= m,
                -m <= sx <= m,
                -m <= sy <= m,
                -m <= sz <= m,
                shrink3_spec(sx as int, sy as int, sz as int, m as int) == shrink3_spec(
                    self.x as int,
                    self.y as int,
                    self.z as int,
                    m0,
                ),
            decreases m,
        {
            proof {
                reveal_with_fuel(shrink3_spec, 2);
            }
            sx = i64_div_trunc(sx, 2);
            sy = i64_div_trunc(sy, 2);
            sz = i64_div_trunc(sz, 2);
            m = i64_div_trunc(m, 2);
        }
        let sqx = mul_wide(sx, sx);
        let sqy = mul_wide(sy, sy);
        let sqz = mul_wide(sz, sz);
        proof {
            assert(0 <= sqx <= 0x1000_0000_0000_0000i128 && 0 <= sqy <= 0x1000_0000_0000_0000i128
                && 0 <= sqz <= 0x1000_0000_0000_0000i128) by (nonlinear_arith)
                requires
                    sqx == sx as int * sx as int,
                    sqy == sy as int * sy as int,
                    sqz == sz as int * sz as int,
                    -0x4000_0000 <= sx as int <= 0x4000_0000,
                    -0x4000_0000 <= sy as int <= 0x4000_0000,
                    -0x4000_0000 <= sz as int <= 0x4000_0000,
            ;
            vstd::arithmetic::div_mod::lemma_div_pos_is_pos(
                sqx + sqy + sqz,
                FP_ONE as int,
            );
            vstd::arithmetic::div_mod::lemma_div_is_ordered(
                sqx + sqy + sqz,
                0x3000_0000_0000_0000i128 as int,
                FP_ONE as int,
            );
        }
        let d = i128_div_trunc(sqx + sqy + sqz, FP_ONE as i128) as i64;
        let len = fp_sqrt(d);
        proof {
            crate::fixed::lemma_sqrt_floor_unique(
                d as int * FP_ONE as int,
                len as int,
                sqrt_len(d as int),
            );
        }
        if len <= 0 {
            Vec3 { x: 0, y: 0, z: 0 }
        } else {
            proof {
                if sx >= 0 {
                    vstd::arithmetic::div_mod::lemma_div_nonincreasing(
                        sx as int * FP_ONE as int,
                        len as int,
                    );
                    vstd::arithmetic::div_mod::lemma_div_pos_is_pos(
                        sx as int * FP_ONE as int,
                        len as int,
                    );
                } else {
                    vstd::arithmetic::div_mod::lemma_div_nonincreasing(
                        -(sx as int) * FP_ONE as int,
                        len as int,
                    );
                    vstd::arithmetic::div_mod::lemma_div_pos_is_pos(
                        -(sx as int) * FP_ONE as int,
                        len as int,
                    );
                }
                if sy >= 0 {
                    vstd::arithmetic::div_mod::lemma_div_nonincreasing(
                        sy as int * FP_ONE as int,
                        len as int,
                    );
                    vstd::arithmetic::div_mod::lemma_div_pos_is_pos(
                        sy as int * FP_ONE as int,
                        len as int,
                    );
                } else {
                    vstd::arithmetic::div_mod::lemma_div_nonincreasing(
                        -(sy as int) * FP_ONE as int,
                        len as int,
                    );
                    vstd::arithmetic::div_mod::lemma_div_pos_is_pos(
                        -(sy as int) * FP_ONE as int,
                        len as int,
                    );
                }
                if sz >= 0 {
                    vstd::arithmetic::div_mod::lemma_div_nonincreasing(
                        sz as int * FP_ONE as int,
                        len as int,
                    );
                    vstd::arithmetic::div_mod::lemma_div_pos_is_pos(
                        sz as int * FP_ONE as int,
                        len as int,
                    );
                } else {
                    vstd::arithmetic::div_mod::lemma_div_nonincreasing(
                        -(sz as int) * FP_ONE as int,
                        len as int,
                    );
                    vstd::arithmetic::div_mod::lemma_div_pos_is_pos(
                        -(sz as int) * FP_ONE as int,
                        len as int,
                    );
                }
            }
            let qx = fp_div(sx, len);
            let qy = fp_div(sy, len);
            let qz = fp_div(sz, len);
            Vec3 { x: clamp4_exec(qx), y: clamp4_exec(qy), z: clamp4_exec(qz) }
        }
    }
}

/// Executable clamp to four fixed-point units.
fn clamp4_exec(a: i64) -> (r: i64)
    ensures
        r == clamp4(a as int),
{
    if a > 4 * FP_ONE {
        4 * FP_ONE
    } else if a < -(4 * FP_ONE) {
        -(4 * FP_ONE)
    } else {
        a
    }
}

/// A homogeneous vector.
#[derive(Clone, Copy, Debug, PartialEq, Eq, Structural)]
pub struct Vec4 {
    pub x: i64,
    pub y: i64,
    pub z: i64,
    pub w: i64,
}

impl Vec4 {
    pub fn new(x: i64, y: i64, z: i64, w: i64) -> (r: Vec4)
        ensures
            r == (Vec4 { x, y, z, w }),
    {
        Vec4 { x, y, z, w }
    }

    /// A point lifted to homogeneous coordinates (`w` is one).
    pub fn from_vec3(v3: &Vec3) -> (r: Vec4)
        ensures
            r.x == v3.x && r.y == v3.y && r.z == v3.z && r.w == FP_ONE,
    {
        Vec4 { x: v3.x, y: v3.y, z: v3.z, w: FP_ONE }
    }
}

impl From<Vec4> for Vec3 {
    /// Drop the homogeneous coordinate.
    fn from(v: Vec4) -> (r: Vec3)
        ensures
            r == (Vec3 { x: v.x, y: v.y, z: v.z }),
    {
        Vec3 { x: v.x, y: v.y, z: v.z }
    }
}

impl vstd::std_specs::convert::FromSpecImpl<Vec4> for Vec3 {
    open spec fn obeys_from_spec() -> bool {
        true
    }

    open spec fn from_spec(v: Vec4) -> Vec3 {
        Vec3 { x: v.x, y: v.y, z: v.z }
    }
}

/// The identity matrix's elements.
pub open spec fn ident_seq() -> Seq<i64> {
    seq![
        FP_ONE, 0i64, 0i64, 0i64, 0i64, FP_ONE, 0i64, 0i64, 0i64, 0i64, FP_ONE, 0i64, 0i64, 0i64,
        0i64, FP_ONE,
    ]
}

/// A 4x4 matrix in row-major fixed-point form.
#[derive(Clone, Copy, Debug, PartialEq, Eq)]
pub struct Matrix {
    pub e: [i64; 16],
}

/// Every element has magnitude at most `b`.
pub open spec fn m_bounded(m: Matrix, b: int) -> bool {
    forall|i: int| 0 <= i < 16 ==> -b <= #[trigger] m.e[i] <= b
}

/// The element bound under which two matrices can be multiplied without
/// overflowing the 128-bit accumulators or the 64-bit result.
pub const MAT_ABS_MAX: i64 = 0x40_0000_0000;

/// Row `r` of `a` times column `c` of `b`, rounded toward zero once.
pub open spec fn mat_mul_elem_seq(a: Seq<i64>, b: Seq<i64>, r: int, c: int) -> int {
    div_trunc(
        a[4 * r] * b[c] + a[4 * r + 1] * b[4 + c] + a[4 * r + 2] * b[8 + c] + a[4 * r + 3] * b[12
            + c],
        FP_ONE as int,
    )
}

/// Row `r` of `a` times column `c` of `b`, rounded toward zero once.
pub open spec fn mat_mul_elem(a: Matrix, b: Matrix, r: int, c: int) -> int {
    mat_mul_elem_seq(a.e@, b.e@, r, c)
}

/// The rotation about the x axis, as elements.
pub open spec fn rot_x_seq(a: int) -> Seq<i64> {
    ident_seq().update(5, crate::fixed::fp_cos_spec(a) as i64).update(
        6,
        (-crate::fixed::fp_sin_spec(a)) as i64,
    ).update(9, crate::fixed::fp_sin_spec(a) as i64).update(
        10,
        crate::fixed::fp_cos_spec(a) as i64,
    )
}

/// The rotation about the y axis, as elements.
pub open spec fn rot_y_seq(a: int) -> Seq<i64> {
    ident_seq().update(0, crate::fixed::fp_cos_spec(a) as i64).update(
        2,
        crate::fixed::fp_sin_spec(a) as i64,
    ).update(8, (-crate::fixed::fp_sin_spec(a)) as i64).update(
        10,
        crate::fixed::fp_cos_spec(a) as i64,
    )
}

/// The translation by `v`, as elements.
pub open spec fn translate_seq(v: Vec3) -> Seq<i64> {
    ident_seq().update(12, v.x).update(13, v.y).update(14, v.z)
}

/// The fixed-point matrix product as a function on element sequences.
pub open spec fn mat_mul_seq(a: Seq<i64>, b: Seq<i64>) -> Seq<i64> {
    Seq::new(16, |i: int| mat_mul_elem_seq(a, b, i / 4, i % 4) as i64)
}

/// `m` is the fixed-point product of `a` and `b`.
pub open spec fn is_mat_mul(a: Matrix, b: Matrix, m: Matrix) -> bool {
    forall|r: int, c: int|
        0 <= r < 4 && 0 <= c < 4 ==> #[trigger] m.e[4 * r + c] == mat_mul_elem(a, b, r, c)
}

/// `v` times `m` in the column layout the camera uses: component `c` of the
/// result is `v` dotted with column `c`.
pub open spec fn mat_vec_elem(m: Matrix, v: Vec4, c: int) -> int {
    div_trunc(
        v.x * m.e[c] + v.y * m.e[4 + c] + v.z * m.e[8 + c] + v.w * m.e[12 + c],
        FP_ONE as int,
    )
}

/// Bounded products stay bounded: the element bound of a fixed-point
/// matrix product, for concrete element bounds.
pub proof fn lemma_mat_mul_elem_bound(a: Matrix, b: Matrix, ba: int, bb: int, r: int, c: int)
    requires
        m_bounded(a, ba),
        m_bounded(b, bb),
        0 <= ba,
        0 <= bb,
        0 <= r < 4,
        0 <= c < 4,
    ensures
        -div_trunc(4 * ba * bb, FP_ONE as int) <= mat_mul_elem(a, b, r, c) <= div_trunc(
            4 * ba * bb,
            FP_ONE as int,
        ),
        -(4 * ba * bb) <= a.e[4 * r] * b.e[c] + a.e[4 * r + 1] * b.e[4 + c] + a.e[4 * r + 2]
            * b.e[8 + c] + a.e[4 * r + 3] * b.e[12 + c] <= 4 * ba * bb,
{
    lemma_abs_mul_le(a.e[4 * r] as int, b.e[c] as int, ba, bb);
    lemma_abs_mul_le(a.e[4 * r + 1] as int, b.e[4 + c] as int, ba, bb);
    lemma_abs_mul_le(a.e[4 * r + 2] as int, b.e[8 + c] as int, ba, bb);
    lemma_abs_mul_le(a.e[4 * r + 3] as int, b.e[12 + c] as int, ba, bb);
    assert(4 * ba * bb == ba * bb + ba * bb + ba * bb + ba * bb) by (nonlinear_arith);
    let s = a.e[4 * r] * b.e[c] + a.e[4 * r + 1] * b.e[4 + c] + a.e[4 * r + 2] * b.e[8 + c] + a.e[4
        * r + 3] * b.e[12 + c];
    if s >= 0 {
        vstd::arithmetic::div_mod::lemma_div_is_ordered(s, 4 * ba * bb, FP_ONE as int);
        vstd::arithmetic::div_mod::lemma_div_pos_is_pos(s, FP_ONE as int);
    } else {
        vstd::arithmetic::div_mod::lemma_div_is_ordered(-s, 4 * ba * bb, FP_ONE as int);
        vstd::arithmetic::div_mod::lemma_div_pos_is_pos(-s, FP_ONE as int);
    }
}

/// Componentwise bounds on two vectors bound their fixed-point dot product.
pub proof fn lemma_dot_bound(a: Vec3, b: Vec3, ba: int, bb: int)
    requires
        v3_bounded(a, ba),
        v3_bounded(b, bb),
        0 <= ba,
        0 <= bb,
    ensures
        -(3 * (ba * bb)) <= a.x * b.x + a.y * b.y + a.z * b.z <= 3 * (ba * bb),
        -div_trunc(3 * (ba * bb), FP_ONE as int) <= dot_spec(a, b) <= div_trunc(
            3 * (ba * bb),
            FP_ONE as int,
        ),
{
    lemma_abs_mul_le(a.x as int, b.x as int, ba, bb);
    lemma_abs_mul_le(a.y as int, b.y as int, ba, bb);
    lemma_abs_mul_le(a.z as int, b.z as int, ba, bb);
    let s = a.x * b.x + a.y * b.y + a.z * b.z;
    if s >= 0 {
        vstd::arithmetic::div_mod::lemma_div_is_ordered(s, 3 * (ba * bb), FP_ONE as int);
        vstd::arithmetic::div_mod::lemma_div_pos_is_pos(s, FP_ONE as int);
    } else {
        vstd::arithmetic::div_mod::lemma_div_is_ordered(-s, 3 * (ba * bb), FP_ONE as int);
        vstd::arithmetic::div_mod::lemma_div_pos_is_pos(-s, FP_ONE as int);
    }
}

/// A bound on both factors bounds the product.
pub proof fn lemma_abs_mul_le(a: int, b: int, ba: int, bb: int)
    requires
        -ba <= a <= ba,
        -bb <= b <= bb,
        0 <= ba,
        0 <= bb,
    ensures
        -(ba * bb) <= a * b <= ba * bb,
{
    assert(-(ba * bb) <= a * b <= ba * bb) by (nonlinear_arith)
        requires
            -ba <= a <= ba,
            -bb <= b <= bb,
            0 <= ba,
            0 <= bb,
    ;
}

impl Matrix {
    pub fn new(elems: &[i64; 16]) -> (r: Matrix)
        ensures
            r.e@ == elems@,
    {
        Matrix { e: *elems }
    }

    /// The first sixteen values of a slice as a matrix; shorter slices are
    /// rejected.
    pub fn from_slice(elems: &[i64]) -> (r: Option<Matrix>)
        ensures
            elems@.len() < 16 ==> r is None,
            elems@.len() >= 16 ==> (r matches Some(m) && m.e@ == elems@.subrange(0, 16)),
    {
        if elems.len() < 16 {
            return None;
        }
        let m = Matrix {
            e: [
                elems[0],
                elems[1],
                elems[2],
                elems[3],
                elems[4],
                elems[5],
                elems[6],
                elems[7],
                elems[8],
                elems[9],
                elems[10],
                elems[11],
                elems[12],
                elems[13],
                elems[14],
                elems[15],
            ],
        };
        proof {
            assert(m.e@ =~= elems@.subrange(0, 16));
        }
        Some(m)
    }

    /// The identity.
    pub fn ident() -> (r: Matrix)
        ensures
            r.e@ =~= ident_seq(),
    {
        Matrix {
            e: [
                FP_ONE,
                0,
                0,
                0,
                0,
                FP_ONE,
                0,
                0,
                0,
                0,
                FP_ONE,
                0,
                0,
                0,
                0,
                FP_ONE,
            ],
        }
    }

    /// Rotation about the x axis by an angle in fixed-point radians.
    pub fn rot_x(radians: i64) -> (r: Matrix)
        requires
            -crate::fixed::FP_ANGLE_MAX <= radians <= crate::fixed::FP_ANGLE_MAX,
        ensures
            r.e@ =~= rot_x_seq(radians as int),
            m_bounded(r, 4 * FP_ONE as int),
    {
        let c = crate::fixed::fp_cos(radians);
        let s = crate::fixed::fp_sin(radians);
        let m = Matrix {
            e: [FP_ONE, 0, 0, 0, 0, c, -s, 0, 0, s, c, 0, 0, 0, 0, FP_ONE],
        };
        proof {
            assert forall|i: int| 0 <= i < 16 implies -(4 * FP_ONE as int) <= #[trigger] m.e[i] <= 4
                * FP_ONE as int by {
                assert(m.e[5] == c && m.e[6] == -s && m.e[9] == s && m.e[10] == c);
            }
        }
        m
    }

    /// Rotation about the y axis by an angle in fixed-point radians.
    pub fn rot_y(radians: i64) -> (r: Matrix)
        requires
            -crate::fixed::FP_ANGLE_MAX <= radians <= crate::fixed::FP_ANGLE_MAX,
        ensures
            r.e@ =~= rot_y_seq(radians as int),
            m_bounded(r, 4 * FP_ONE as int),
    {
        let c = crate::fixed::fp_cos(radians);
        let s = crate::fixed::fp_sin(radians);
        let m = Matrix {
            e: [c, 0, s, 0, 0, FP_ONE, 0, 0, -s, 0, c, 0, 0, 0, 0, FP_ONE],
        };
        proof {
            assert forall|i: int| 0 <= i < 16 implies -(4 * FP_ONE as int) <= #[trigger] m.e[i] <= 4
                * FP_ONE as int by {
                assert(m.e[0] == c && m.e[2] == s && m.e[8] == -s && m.e[10] == c);
            }
        }
        m
    }

    /// Translation by `v`.
    pub fn translate(v: &Vec3) -> (r: Matrix)
        ensures
            r.e@ =~= translate_seq(*v),
    {
        Matrix {
            e: [
                FP_ONE,
                0,
                0,
                0,
                0,
                FP_ONE,
                0,
                0,
                0,
                0,
                FP_ONE,
                0,
                v.x,
                v.y,
                v.z,
                FP_ONE,
            ],
        }
    }

    /// The transpose.
    pub fn transpose(&self) -> (r: Matrix)
        ensures
            forall|i: int, j: int|
                0 <= i < 4 && 0 <= j < 4 ==> #[trigger] r.e[4 * i + j] == self.e[4 * j + i],
    {
        let m = Matrix {
            e: [
                self.e[0],
                self.e[4],
                self.e[8],
                self.e[12],
                self.e[1],
                self.e[5],
                self.e[9],
                self.e[13],
                self.e[2],
                self.e[6],
                self.e[10],
                self.e[14],
                self.e[3],
                self.e[7],
                self.e[11],
                self.e[15],
            ],
        };
        m
    }

    /// Fixed-point matrix product. The callers know concrete element bounds
    /// for their matrices and discharge the range obligations through
    /// `lemma_mat_mul_elem_bound`.
    pub fn mul(&self, rhs: &Matrix) -> (r: Matrix)
        requires
            m_bounded(*self, VEC_ABS_MAX as int),
            m_bounded(*rhs, VEC_ABS_MAX as int),
            forall|r0: int, c0: int|
                0 <= r0 < 4 && 0 <= c0 < 4 ==> i64::MIN <= #[trigger] mat_mul_elem(
                    *self,
                    *rhs,
                    r0,
                    c0,
                ) <= i64::MAX,
        ensures
            is_mat_mul(*self, *rhs, r),
            r.e@ == mat_mul_seq(self.e@, rhs.e@),
    {
        let e00 = self.mul_elem(rhs, 0, 0);
        let e01 = self.mul_elem(rhs, 0, 1);
        let e02 = self.mul_elem(rhs, 0, 2);
        let e03 = self.mul_elem(rhs, 0, 3);
        let e10 = self.mul_elem(rhs, 1, 0);
        let e11 = self.mul_elem(rhs, 1, 1);
        let e12 = self.mul_elem(rhs, 1, 2);
        let e13 = self.mul_elem(rhs, 1, 3);
        let e20 = self.mul_elem(rhs, 2, 0);
        let e21 = self.mul_elem(rhs, 2, 1);
        let e22 = self.mul_elem(rhs, 2, 2);
        let e23 = self.mul_elem(rhs, 2, 3);
        let e30 = self.mul_elem(rhs, 3, 0);
        let e31 = self.mul_elem(rhs, 3, 1);
        let e32 = self.mul_elem(rhs, 3, 2);
        let e33 = self.mul_elem(rhs, 3, 3);
        let m = Matrix {
            e: [
                e00,
                e01,
                e02,
                e03,
                e10,
                e11,
                e12,
                e13,
                e20,
                e21,
                e22,
                e23,
                e30,
                e31,
                e32,
                e33,
            ],
        };
        proof {
            assert forall|r0: int, c0: int| 0 <= r0 < 4 && 0 <= c0 < 4 implies #[trigger] m.e[4 * r0
                + c0] == mat_mul_elem(*self, *rhs, r0, c0) by {
                if r0 == 0 {
                    assert(m.e[4 * r0 + c0] == m.e[c0]);
                } else if r0 == 1 {
                    assert(m.e[4 * r0 + c0] == m.e[4 + c0]);
                } else if r0 == 2 {
                    assert(m.e[4 * r0 + c0] == m.e[8 + c0]);
                } else {
                    assert(m.e[4 * r0 + c0] == m.e[12 + c0]);
                }
            }
            assert forall|i: int| 0 <= i < 16 implies m.e@[i] == mat_mul_seq(self.e@, rhs.e@)[i] by {
                vstd::arithmetic::div_mod::lemma_fundamental_div_mod(i, 4);
                let r0 = i / 4;
                let c0 = i % 4;
                assert(i == 4 * r0 + c0);
                assert(m.e[4 * r0 + c0] == mat_mul_elem(*self, *rhs, r0, c0));
                assert(i64::MIN <= mat_mul_elem(*self, *rhs, r0, c0) <= i64::MAX);
            }
            assert(m.e@ =~= mat_mul_seq(self.e@, rhs.e@));
        }
        m
    }

    /// One element of the product: row `r` of `self` times column `c` of
    /// `rhs`.
    fn mul_elem(&self, rhs: &Matrix, r: usize, c: usize) -> (v: i64)
        requires
            r < 4,
            c < 4,
            m_bounded(*self, VEC_ABS_MAX as int),
            m_bounded(*rhs, VEC_ABS_MAX as int),
            i64::MIN <= mat_mul_elem(*self, *rhs, r as int, c as int) <= i64::MAX,
        ensures
            v == mat_mul_elem(*self, *rhs, r as int, c as int),
    {
        let s = mul_wide(self.e[4 * r], rhs.e[c]) + mul_wide(self.e[4 * r + 1], rhs.e[4 + c])
            + mul_wide(self.e[4 * r + 2], rhs.e[8 + c]) + mul_wide(self.e[4 * r + 3], rhs.e[12 + c]);
        i128_div_trunc(s, FP_ONE as i128) as i64
    }

    /// `v` times `self`, in the camera's column layout.
    pub fn mul_vec4(&self, v: &Vec4) -> (r: Vec4)
        requires
            m_bounded(*self, VEC_ABS_MAX as int),
            -VEC_ABS_MAX <= v.x <= VEC_ABS_MAX,
            -VEC_ABS_MAX <= v.y <= VEC_ABS_MAX,
            -VEC_ABS_MAX <= v.z <= VEC_ABS_MAX,
            -VEC_ABS_MAX <= v.w <= VEC_ABS_MAX,
            forall|c0: int|
                0 <= c0 < 4 ==> i64::MIN <= #[trigger] mat_vec_elem(*self, *v, c0) <= i64::MAX,
        ensures
            r.x == mat_vec_elem(*self, *v, 0),
            r.y == mat_vec_elem(*self, *v, 1),
            r.z == mat_vec_elem(*self, *v, 2),
            r.w == mat_vec_elem(*self, *v, 3),
    {
        let x = i128_div_trunc(
            mul_wide(v.x, self.e[0]) + mul_wide(v.y, self.e[4]) + mul_wide(v.z, self.e[8])
                + mul_wide(v.w, self.e[12]),
            FP_ONE as i128,
        ) as i64;
        let y = i128_div_trunc(
            mul_wide(v.x, self.e[1]) + mul_wide(v.y, self.e[5]) + mul_wide(v.z, self.e[9])
                + mul_wide(v.w, self.e[13]),
            FP_ONE as i128,
        ) as i64;
        let z = i128_div_trunc(
            mul_wide(v.x, self.e[2]) + mul_wide(v.y, self.e[6]) + mul_wide(v.z, self.e[10])
                + mul_wide(v.w, self.e[14]),
            FP_ONE as i128,
        ) as i64;
        let w = i128_div_trunc(
            mul_wide(v.x, self.e[3]) + mul_wide(v.y, self.e[7]) + mul_wide(v.z, self.e[11])
                + mul_wide(v.w, self.e[15]),
            FP_ONE as i128,
        ) as i64;
        Vec4 { x, y, z, w }
    }
}

} // verus!
