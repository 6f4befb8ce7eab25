//! The camera: position, yaw and pitch over a base orientation, two cached
//! matrices recomputed on every orientation change, and one jittered
//! primary ray per pixel on demand.
use crate::fixed::{
    div_trunc, fp_cos, fp_cos_spec, fp_div, fp_div_spec, fp_mul, fp_mul_spec, fp_sin, fp_sin_spec,
    i64_div_trunc, FP_HALF_PI, FP_ONE, FP_PI,
};
use crate::vecmath::{
    lemma_abs_mul_le, lemma_mat_mul_elem_bound, m_bounded, mat_mul_seq, mat_vec_elem, rot_x_seq,
    rot_y_seq, translate_seq, v3_bounded, ident_seq, Matrix, Ray, Vec3, Vec4,
};
use vstd::prelude::*;

verus! {

/// A full turn in fixed-point radians.
pub const FP_TWO_PI: i64 = 411775;

/// The farthest the camera itself may wander from the origin.
pub const CAM_POS_MAX: i64 = 0x400_0000;

/// The widest image the camera will address.
pub const CAM_DIM_MAX: usize = 0x10_0000;

/// Cap on the half-field-of-view tangent.
pub const FOV_TAN_MAX: i64 = 0x1000_0000;

/// Angles wrap around a full turn so they stay in the range the
/// trigonometric functions accept.
pub open spec fn wrap_angle(a: int) -> int {
    if a > FP_TWO_PI {
        a - FP_TWO_PI
    } else if a < -FP_TWO_PI {
        a + FP_TWO_PI
    } else {
        a
    }
}

/// The half-fov tangent: sine over cosine, capped; a non-positive cosine
/// (a fov at or beyond a half turn) saturates at the cap.
pub open spec fn fov_tan(half_fov: int) -> int {
    let s = fp_sin_spec(half_fov);
    let c = fp_cos_spec(half_fov);
    if c <= 0 {
        FOV_TAN_MAX as int
    } else {
        let t = fp_div_spec(s, c);
        if t > FOV_TAN_MAX {
            FOV_TAN_MAX as int
        } else if t < -FOV_TAN_MAX {
            -FOV_TAN_MAX as int
        } else {
            t
        }
    }
}

/// The rotation block of an orientation matrix, with the translation row
/// and column cleared and the homogeneous corner set to one.
pub open spec fn strip_translation(e: Seq<i64>) -> Seq<i64> {
    seq![
        e[0], e[1], e[2], 0i64, e[4], e[5], e[6], 0i64, e[8], e[9], e[10], 0i64, 0i64, 0i64, 0i64,
        FP_ONE,
    ]
}

/// The cached matrices are exactly the products of the rotation and
/// translation factors of the camera's state.
pub open spec fn camera_matrices_ok(c: Camera) -> bool {
    let rot = mat_mul_seq(
        mat_mul_seq(rot_x_seq(c.x_angle_radians as int), rot_y_seq(c.y_angle_radians as int)),
        c.base_rotation_matrix.e@,
    );
    &&& c.rotation_matrix.e@ == rot
    &&& c.orientation_matrix.e@ == mat_mul_seq(
        mat_mul_seq(rot, translate_seq(c.pos)),
        c.base_orientation_matrix.e@,
    )
}

/// What every camera maintains: wrapped angles, a bounded position, bounded
/// base matrices, a plausible field of view, and caches that match.
pub open spec fn camera_wf(c: Camera) -> bool {
    &&& -FP_TWO_PI <= c.x_angle_radians <= FP_TWO_PI
    &&& -FP_TWO_PI <= c.y_angle_radians <= FP_TWO_PI
    &&& v3_bounded(c.pos, CAM_POS_MAX as int)
    &&& m_bounded(c.base_rotation_matrix, 4 * FP_ONE as int)
    &&& m_bounded(c.base_orientation_matrix, 0x8000_0000)
    &&& 0 <= c.half_fov <= FP_HALF_PI
    &&& 0 < c.width <= CAM_DIM_MAX
    &&& 0 < c.height <= CAM_DIM_MAX
    &&& c.max_x == fov_tan(c.half_fov as int)
    &&& c.max_y == fov_tan(c.half_fov as int)
    &&& camera_matrices_ok(c)
    &&& m_bounded(c.rotation_matrix, 0x400_0000)
    &&& m_bounded(c.orientation_matrix, 0x80_0000_0000_0000)
}

/// A perspective camera over fixed-point state.
#[derive(Clone, Copy, Debug)]
pub struct Camera {
    pub x_angle_radians: i64,
    pub y_angle_radians: i64,
    pub pos: Vec3,
    pub width: usize,
    pub height: usize,
    pub half_fov: i64,
    pub base_orientation_matrix: Matrix,
    pub base_rotation_matrix: Matrix,
    pub orientation_matrix: Matrix,
    pub rotation_matrix: Matrix,
    pub max_x: i64,
    pub max_y: i64,
}

/// The jittered direction offset for one screen coordinate: the pixel plus
/// jitter, as a fraction of the image extent, swept across `[-max, max]`.
pub open spec fn screen_offset(px: int, jitter: int, extent: int, max: int) -> int {
    let frac = div_trunc(px * FP_ONE + jitter, extent);
    -max + fp_mul_spec(2 * max, frac)
}

/// One component of the ray direction before clamping.
pub open spec fn ray_dir_raw(c: Camera, x: int, y: int, jx: int, jy: int, axis: int) -> int {
    let dx = screen_offset(x, jx, c.width as int, c.max_x as int);
    let dy = screen_offset(y, jy, c.height as int, c.max_y as int);
    mat_vec_elem(
        c.rotation_matrix,
        Vec4 { x: dx as i64, y: (-dy) as i64, z: FP_ONE, w: FP_ONE },
        axis,
    )
}

/// One component of the ray origin before clamping: the camera's world
/// position, read off the orientation matrix.
pub open spec fn ray_pos_raw(c: Camera, axis: int) -> int {
    mat_vec_elem(c.orientation_matrix, Vec4 { x: 0i64, y: 0i64, z: 0i64, w: FP_ONE }, axis)
}

/// Clamp a computed coordinate into the world bound.
pub open spec fn clamp_coord(a: int) -> int {
    if a > 0x8000_0000 {
        0x8000_0000
    } else if a < -0x8000_0000 {
        -0x8000_0000
    } else {
        a
    }
}

impl Camera {
    /// A camera at `pos` looking down its base axis with the given field of
    /// view in fixed-point degrees.
    pub fn new(width: usize, height: usize, pos: &Vec3, fov_deg: i64) -> (c: Camera)
        requires
            0 < width <= CAM_DIM_MAX,
            0 < height <= CAM_DIM_MAX,
            v3_bounded(*pos, CAM_POS_MAX as int),
            0 <= fov_deg <= 180 * FP_ONE,
        ensures
            camera_wf(c),
            c.width == width,
            c.height == height,
            c.pos == *pos,
            c.x_angle_radians == 0,
            c.y_angle_radians == 0,
    {
        Self::from_orientation_matrix(width, height, &Matrix::ident(), fov_deg, pos)
    }

    /// A camera whose base orientation comes from a scene file. Only
    /// rotation and translation are expected in the matrix; its rotation
    /// block must be unit-scale and its translation within the world.
    pub fn from_orientation_matrix(
        width: usize,
        height: usize,
        orientation_matrix: &Matrix,
        fov_deg: i64,
        pos: &Vec3,
    ) -> (c: Camera)
        requires
            0 < width <= CAM_DIM_MAX,
            0 < height <= CAM_DIM_MAX,
            m_bounded(*orientation_matrix, 0x8000_0000),
            forall|i: int|
                0 <= i < 16 && i != 12 && i != 13 && i != 14 ==> -(4 * FP_ONE as int)
                    <= #[trigger] orientation_matrix.e[i] <= 4 * FP_ONE as int,
            0 <= fov_deg <= 180 * FP_ONE,
            v3_bounded(*pos, CAM_POS_MAX as int),
        ensures
            camera_wf(c),
            c.width == width,
            c.height == height,
            c.pos == *pos,
            c.x_angle_radians == 0,
            c.y_angle_radians == 0,
            c.base_orientation_matrix == *orientation_matrix,
            c.base_rotation_matrix.e@ =~= strip_translation(orientation_matrix.e@),
            c.half_fov == div_trunc(
                div_trunc(fp_mul_spec(fov_deg as int, FP_PI as int), 180),
                2,
            ),
    {
        let base_rotation_matrix = Matrix {
            e: [
                orientation_matrix.e[0],
                orientation_matrix.e[1],
                orientation_matrix.e[2],
                0,
                orientation_matrix.e[4],
                orientation_matrix.e[5],
                orientation_matrix.e[6],
                0,
                orientation_matrix.e[8],
                orientation_matrix.e[9],
                orientation_matrix.e[10],
                0,
                0,
                0,
                0,
                FP_ONE,
            ],
        };
        proof {
            crate::fixed::lemma_fp_mul_bound(fov_deg as int, FP_PI as int, 11796480, 205887);
        }
        let fov = i64_div_trunc(fp_mul(fov_deg, FP_PI), 180);
        let half_fov = i64_div_trunc(fov, 2);
        let max_x = Self::tan_capped(half_fov);
        let mut cam = Camera {
            x_angle_radians: 0,
            y_angle_radians: 0,
            pos: *pos,
            width,
            height,
            half_fov,
            base_orientation_matrix: *orientation_matrix,
            base_rotation_matrix,
            orientation_matrix: Matrix::ident(),
            rotation_matrix: Matrix::ident(),
            max_x,
            max_y: max_x,
        };
        proof {
            assert forall|i: int| 0 <= i < 16 implies -(4 * FP_ONE as int)
                <= #[trigger] cam.base_rotation_matrix.e[i] <= 4 * FP_ONE as int by {}
            assert(0 <= cam.half_fov <= FP_HALF_PI);
        }
        cam.update_matrices();
        cam
    }

    /// The capped tangent of the half field of view.
    fn tan_capped(half_fov: i64) -> (t: i64)
        requires
            0 <= half_fov <= FP_HALF_PI,
        ensures
            t == fov_tan(half_fov as int),
            -FOV_TAN_MAX <= t <= FOV_TAN_MAX,
    {
        let s = fp_sin(half_fov);
        let c = fp_cos(half_fov);
        if c <= 0 {
            FOV_TAN_MAX
        } else {
            proof {
                if s >= 0 {
                    vstd::arithmetic::div_mod::lemma_div_nonincreasing(
                        s as int * FP_ONE as int,
                        c as int,
                    );
                    vstd::arithmetic::div_mod::lemma_div_pos_is_pos(
                        s as int * FP_ONE as int,
                        c as int,
                    );
                } else {
                    vstd::arithmetic::div_mod::lemma_div_nonincreasing(
                        -(s as int) * FP_ONE as int,
                        c as int,
                    );
                    vstd::arithmetic::div_mod::lemma_div_pos_is_pos(
                        -(s as int) * FP_ONE as int,
                        c as int,
                    );
                }
                assert(-(4 * FP_ONE as int) * FP_ONE as int <= s as int * FP_ONE as int <= (4
                    * FP_ONE as int) * FP_ONE as int) by (nonlinear_arith)
                    requires
                        -(4 * 65536int) <= s as int <= 4 * 65536int,
                        FP_ONE == 65536i64,
                ;
            }
            let t = fp_div(s, c);
            if t > FOV_TAN_MAX {
                FOV_TAN_MAX
            } else if t < -FOV_TAN_MAX {
                -FOV_TAN_MAX
            } else {
                proof {
                    assert(t >= 0 || t >= -FOV_TAN_MAX);
                }
                t
            }
        }
    }

    /// Turn the view up or down, and refresh the cached matrices.
    pub fn add_x_angle(&mut self, radians: i64)
        requires
            camera_wf(*old(self)),
            -FP_TWO_PI <= radians <= FP_TWO_PI,
        ensures
            camera_wf(*final(self)),
            final(self).x_angle_radians == wrap_angle(
                old(self).x_angle_radians + radians,
            ),
            final(self).y_angle_radians == old(self).y_angle_radians,
            final(self).pos == old(self).pos,
            final(self).width == old(self).width && final(self).height == old(self).height,
            final(self).base_orientation_matrix == old(self).base_orientation_matrix,
            final(self).base_rotation_matrix == old(self).base_rotation_matrix,
    {
        let a = self.x_angle_radians + radians;
        self.x_angle_radians = if a > FP_TWO_PI {
            a - FP_TWO_PI
        } else if a < -FP_TWO_PI {
            a + FP_TWO_PI
        } else {
            a
        };
        self.update_matrices();
    }

    /// Turn the view left or right, and refresh the cached matrices.
    pub fn add_y_angle(&mut self, radians: i64)
        requires
            camera_wf(*old(self)),
            -FP_TWO_PI <= radians <= FP_TWO_PI,
        ensures
            camera_wf(*final(self)),
            final(self).y_angle_radians == wrap_angle(
                old(self).y_angle_radians + radians,
            ),
            final(self).x_angle_radians == old(self).x_angle_radians,
            final(self).pos == old(self).pos,
            final(self).width == old(self).width && final(self).height == old(self).height,
            final(self).base_orientation_matrix == old(self).base_orientation_matrix,
            final(self).base_rotation_matrix == old(self).base_rotation_matrix,
    {
        let a = self.y_angle_radians + radians;
        self.y_angle_radians = if a > FP_TWO_PI {
            a - FP_TWO_PI
        } else if a < -FP_TWO_PI {
            a + FP_TWO_PI
        } else {
            a
        };
        self.update_matrices();
    }

    /// Set the pitch outright.
    pub fn set_x_angle(&mut self, radians: i64)
        requires
            camera_wf(*old(self)),
            -FP_TWO_PI <= radians <= FP_TWO_PI,
        ensures
            camera_wf(*final(self)),
            final(self).x_angle_radians == radians,
            final(self).y_angle_radians == old(self).y_angle_radians,
            final(self).pos == old(self).pos,
    {
        self.x_angle_radians = radians;
        self.update_matrices();
    }

    /// Set the yaw outright.
    pub fn set_y_angle(&mut self, radians: i64)
        requires
            camera_wf(*old(self)),
            -FP_TWO_PI <= radians <= FP_TWO_PI,
        ensures
            camera_wf(*final(self)),
            final(self).y_angle_radians == radians,
            final(self).x_angle_radians == old(self).x_angle_radians,
            final(self).pos == old(self).pos,
    {
        self.y_angle_radians = radians;
        self.update_matrices();
    }

    /// Move the camera by a relative step, saturating at the world bound
    /// for camera positions, and refresh the cached matrices.
    pub fn move_rel(&mut self, x: i64, y: i64, z: i64)
        requires
            camera_wf(*old(self)),
            -CAM_POS_MAX <= x <= CAM_POS_MAX,
            -CAM_POS_MAX <= y <= CAM_POS_MAX,
            -CAM_POS_MAX <= z <= CAM_POS_MAX,
        ensures
            camera_wf(*final(self)),
            final(self).pos.x == clamp_pos(old(self).pos.x + x),
            final(self).pos.y == clamp_pos(old(self).pos.y + y),
            final(self).pos.z == clamp_pos(old(self).pos.z + z),
            final(self).x_angle_radians == old(self).x_angle_radians,
            final(self).y_angle_radians == old(self).y_angle_radians,
            final(self).width == old(self).width && final(self).height == old(self).height,
            final(self).half_fov == old(self).half_fov,
            final(self).max_x == old(self).max_x && final(self).max_y == old(self).max_y,
            final(self).base_orientation_matrix == old(self).base_orientation_matrix,
            final(self).base_rotation_matrix == old(self).base_rotation_matrix,
    {
        self.pos.x = clamp_pos_exec(self.pos.x + x);
        self.pos.y = clamp_pos_exec(self.pos.y + y);
        self.pos.z = clamp_pos_exec(self.pos.z + z);
        self.update_matrices();
    }

    /// Recompute the two cached matrices from the angles, the position and
    /// the base matrices.
    fn update_matrices(&mut self)
        requires
            -FP_TWO_PI <= old(self).x_angle_radians <= FP_TWO_PI,
            -FP_TWO_PI <= old(self).y_angle_radians <= FP_TWO_PI,
            v3_bounded(old(self).pos, CAM_POS_MAX as int),
            m_bounded(old(self).base_rotation_matrix, 4 * FP_ONE as int),
            m_bounded(old(self).base_orientation_matrix, 0x8000_0000),
        ensures
            camera_matrices_ok(*final(self)),
            m_bounded(final(self).rotation_matrix, 0x400_0000),
            m_bounded(final(self).orientation_matrix, 0x80_0000_0000_0000),
            final(self).x_angle_radians == old(self).x_angle_radians,
            final(self).y_angle_radians == old(self).y_angle_radians,
            final(self).pos == old(self).pos,
            final(self).width == old(self).width && final(self).height == old(self).height,
            final(self).half_fov == old(self).half_fov,
            final(self).max_x == old(self).max_x && final(self).max_y == old(self).max_y,
            final(self).base_orientation_matrix == old(self).base_orientation_matrix,
            final(self).base_rotation_matrix == old(self).base_rotation_matrix,
    {
        let rx = Matrix::rot_x(self.x_angle_radians);
        let ry = Matrix::rot_y(self.y_angle_radians);
        proof {
            mul_fits(rx, ry, 262144, 262144);
        }
        let m1 = rx.mul(&ry);
        proof {
            bound_of_product(m1, rx, ry, 4194304);
            mul_fits(m1, self.base_rotation_matrix, 4194304, 262144);
        }
        let rot = m1.mul(&self.base_rotation_matrix);
        let tr = Matrix::translate(&self.pos);
        proof {
            bound_of_product(rot, m1, self.base_rotation_matrix, 0x400_0000);
            assert(m_bounded(tr, 0x400_0000)) by {
                assert forall|i: int| 0 <= i < 16 implies -0x400_0000 <= #[trigger] tr.e[i]
                    <= 0x400_0000 by {
                    assert(tr.e@ == translate_seq(self.pos));
                }
            }
            mul_fits(rot, tr, 0x400_0000, 0x400_0000);
        }
        let t1 = rot.mul(&tr);
        proof {
            bound_of_product(t1, rot, tr, 0x40_0000_0000);
            mul_fits(t1, self.base_orientation_matrix, 0x40_0000_0000, 0x8000_0000);
        }
        let ori = t1.mul(&self.base_orientation_matrix);
        proof {
            bound_of_product(ori, t1, self.base_orientation_matrix, 0x80_0000_0000_0000);
        }
        self.rotation_matrix = rot;
        self.orientation_matrix = ori;
    }

    /// The primary ray for pixel `(x, y)` with the given subpixel jitter,
    /// clamped into the world bound.
    pub fn get_ray(&self, x: usize, y: usize, jx: i64, jy: i64) -> (r: Ray)
        requires
            camera_wf(*self),
            x < self.width,
            y < self.height,
            0 <= jx < FP_ONE,
            0 <= jy < FP_ONE,
        ensures
            r.pos.x == clamp_coord(ray_pos_raw(*self, 0)),
            r.pos.y == clamp_coord(ray_pos_raw(*self, 1)),
            r.pos.z == clamp_coord(ray_pos_raw(*self, 2)),
            r.dir.x == clamp_coord(ray_dir_raw(*self, x as int, y as int, jx as int, jy as int, 0)),
            r.dir.y == clamp_coord(ray_dir_raw(*self, x as int, y as int, jx as int, jy as int, 1)),
            r.dir.z == clamp_coord(ray_dir_raw(*self, x as int, y as int, jx as int, jy as int, 2)),
            v3_bounded(r.pos, 0x8000_0000),
            v3_bounded(r.dir, 0x8000_0000),
    {
        let dx = self.screen_offset_exec(x, jx, self.width, self.max_x);
        let dy = self.screen_offset_exec(y, jy, self.height, self.max_y);
        let dir4 = Vec4 { x: dx, y: -dy, z: FP_ONE, w: FP_ONE };
        proof {
            assert(0x6000_0000 * 0x400_0000 <= 0x80_0000_0000_0000_0000int) by (nonlinear_arith);
            mat_vec_fits(self.rotation_matrix, dir4, 0x400_0000, 0x6000_0000);
        }
        let dir = self.rotation_matrix.mul_vec4(&dir4);
        let origin4 = Vec4 { x: 0, y: 0, z: 0, w: FP_ONE };
        proof {
            assert(0x1_0000 * 0x80_0000_0000_0000 <= 0x80_0000_0000_0000_0000int)
                by (nonlinear_arith);
            mat_vec_fits(self.orientation_matrix, origin4, 0x80_0000_0000_0000, 0x1_0000);
        }
        let pos = self.orientation_matrix.mul_vec4(&origin4);
        Ray {
            pos: Vec3 {
                x: clamp_coord_exec(pos.x),
                y: clamp_coord_exec(pos.y),
                z: clamp_coord_exec(pos.z),
            },
            dir: Vec3 {
                x: clamp_coord_exec(dir.x),
                y: clamp_coord_exec(dir.y),
                z: clamp_coord_exec(dir.z),
            },
        }
    }

    /// The jittered screen offset along one axis.
    fn screen_offset_exec(&self, px: usize, jitter: i64, extent: usize, max: i64) -> (r: i64)
        requires
            0 < extent <= CAM_DIM_MAX,
            px < extent,
            0 <= jitter < FP_ONE,
            -FOV_TAN_MAX <= max <= FOV_TAN_MAX,
        ensures
            r == screen_offset(px as int, jitter as int, extent as int, max as int),
            -0x6000_0000 <= r <= 0x6000_0000,
    {
        let num = (px as i64) * FP_ONE + jitter;
        let frac = i64_div_trunc(num, extent as i64);
        proof {
            vstd::arithmetic::div_mod::lemma_div_pos_is_pos(num as int, extent as int);
            assert(num as int <= extent as int * FP_ONE as int) by (nonlinear_arith)
                requires
                    px as int <= extent as int - 1,
                    0 <= jitter < 65536,
                    FP_ONE == 65536i64,
                    num as int == px as int * FP_ONE as int + jitter as int,
            ;
            vstd::arithmetic::div_mod::lemma_div_is_ordered(
                num as int,
                extent as int * FP_ONE as int,
                extent as int,
            );
            vstd::arithmetic::div_mod::lemma_div_multiples_vanish(FP_ONE as int, extent as int);
            assert(extent as int * FP_ONE as int == extent as int * FP_ONE as int)
                by (nonlinear_arith);
            crate::fixed::lemma_fp_mul_bound(
                2 * max as int,
                frac as int,
                0x2000_0000,
                0x1_0000,
            );
        }
        -max + fp_mul(2 * max, frac)
    }
}

/// Clamp a camera position component to its bound.
pub open spec fn clamp_pos(a: int) -> int {
    if a > CAM_POS_MAX {
        CAM_POS_MAX as int
    } else if a < -CAM_POS_MAX {
        -CAM_POS_MAX as int
    } else {
        a
    }
}

fn clamp_pos_exec(a: i64) -> (r: i64)
    ensures
        r == clamp_pos(a as int),
{
    if a > CAM_POS_MAX {
        CAM_POS_MAX
    } else if a < -CAM_POS_MAX {
        -CAM_POS_MAX
    } else {
        a
    }
}

pub fn clamp_coord_exec(a: i64) -> (r: i64)
    ensures
        r == clamp_coord(a as int),
{
    if a > 0x8000_0000 {
        0x8000_0000
    } else if a < -0x8000_0000 {
        -0x8000_0000
    } else {
        a
    }
}

/// A matrix equal to a product whose elements are bounded is bounded.
proof fn bound_of_product(m: Matrix, a: Matrix, b: Matrix, bound: int)
    requires
        m.e@ == mat_mul_seq(a.e@, b.e@),
        forall|r0: int, c0: int|
            0 <= r0 < 4 && 0 <= c0 < 4 ==> -bound <= #[trigger] crate::vecmath::mat_mul_elem(
                a,
                b,
                r0,
                c0,
            ) <= bound,
        0 <= bound <= i64::MAX as int,
    ensures
        m_bounded(m, bound),
{
    assert forall|i: int| 0 <= i < 16 implies -bound <= #[trigger] m.e[i] <= bound by {
        vstd::arithmetic::div_mod::lemma_fundamental_div_mod(i, 4);
        let r0 = i / 4;
        let c0 = i % 4;
        assert(0 <= r0 < 4 && 0 <= c0 < 4);
        assert(-bound <= crate::vecmath::mat_mul_elem(a, b, r0, c0) <= bound);
        assert(m.e@[i] == crate::vecmath::mat_mul_elem_seq(a.e@, b.e@, r0, c0) as i64);
    }
}

/// Discharge the element-range obligations of a matrix product from
/// concrete bounds on the factors.
proof fn mul_fits(a: Matrix, b: Matrix, ba: int, bb: int)
    requires
        m_bounded(a, ba),
        m_bounded(b, bb),
        0 <= ba <= 0x40_0000_0000,
        0 <= bb <= 0x8000_0000,
    ensures
        m_bounded(a, crate::vecmath::VEC_ABS_MAX as int),
        m_bounded(b, crate::vecmath::VEC_ABS_MAX as int),
        forall|r0: int, c0: int|
            0 <= r0 < 4 && 0 <= c0 < 4 ==> i64::MIN <= #[trigger] crate::vecmath::mat_mul_elem(
                a,
                b,
                r0,
                c0,
            ) <= i64::MAX,
        forall|r0: int, c0: int|
            0 <= r0 < 4 && 0 <= c0 < 4 ==> -div_trunc(4 * ba * bb, FP_ONE as int)
                <= #[trigger] crate::vecmath::mat_mul_elem(a, b, r0, c0) <= div_trunc(
                4 * ba * bb,
                FP_ONE as int,
            ),
{
    assert forall|r0: int, c0: int| 0 <= r0 < 4 && 0 <= c0 < 4 implies -div_trunc(
        4 * ba * bb,
        FP_ONE as int,
    ) <= #[trigger] crate::vecmath::mat_mul_elem(a, b, r0, c0) <= div_trunc(
        4 * ba * bb,
        FP_ONE as int,
    ) by {
        lemma_mat_mul_elem_bound(a, b, ba, bb, r0, c0);
    }
    assert(0 <= 4 * ba * bb <= 0x80_0000_0000_0000_0000) by (nonlinear_arith)
        requires
            0 <= ba <= 0x40_0000_0000,
            0 <= bb <= 0x8000_0000,
    ;
    assert forall|r0: int, c0: int| 0 <= r0 < 4 && 0 <= c0 < 4 implies i64::MIN
        <= #[trigger] crate::vecmath::mat_mul_elem(a, b, r0, c0) <= i64::MAX by {
        vstd::arithmetic::div_mod::lemma_div_is_ordered(
            4 * ba * bb,
            0x80_0000_0000_0000_0000,
            FP_ONE as int,
        );
        vstd::arithmetic::div_mod::lemma_div_pos_is_pos(4 * ba * bb, FP_ONE as int);
    }
}

/// Discharge the element-range obligations of a matrix/vector product from
/// concrete bounds on the factors.
pub proof fn mat_vec_fits(m: Matrix, v: Vec4, bm: int, bv: int)
    requires
        m_bounded(m, bm),
        -bv <= v.x <= bv,
        -bv <= v.y <= bv,
        -bv <= v.z <= bv,
        -bv <= v.w <= bv,
        0 <= bm <= crate::vecmath::VEC_ABS_MAX,
        0 <= bv <= 0x1_0000_0000,
        bv * bm <= 0x80_0000_0000_0000_0000,
    ensures
        m_bounded(m, crate::vecmath::VEC_ABS_MAX as int),
        -crate::vecmath::VEC_ABS_MAX <= v.x <= crate::vecmath::VEC_ABS_MAX,
        -crate::vecmath::VEC_ABS_MAX <= v.y <= crate::vecmath::VEC_ABS_MAX,
        -crate::vecmath::VEC_ABS_MAX <= v.z <= crate::vecmath::VEC_ABS_MAX,
        -crate::vecmath::VEC_ABS_MAX <= v.w <= crate::vecmath::VEC_ABS_MAX,
        forall|c0: int|
            0 <= c0 < 4 ==> i64::MIN <= #[trigger] mat_vec_elem(m, v, c0) <= i64::MAX,
{
    assert forall|c0: int| 0 <= c0 < 4 implies i64::MIN <= #[trigger] mat_vec_elem(m, v, c0)
        <= i64::MAX by {
        lemma_abs_mul_le(v.x as int, m.e[c0] as int, bv, bm);
        lemma_abs_mul_le(v.y as int, m.e[4 + c0] as int, bv, bm);
        lemma_abs_mul_le(v.z as int, m.e[8 + c0] as int, bv, bm);
        lemma_abs_mul_le(v.w as int, m.e[12 + c0] as int, bv, bm);
        assert(0 <= 4 * (bv * bm) <= 0x200_0000_0000_0000_0000) by (nonlinear_arith)
            requires
                0 <= bm,
                0 <= bv,
                bv * bm <= 0x80_0000_0000_0000_0000,
        ;
        let s = v.x * m.e[c0] + v.y * m.e[4 + c0] + v.z * m.e[8 + c0] + v.w * m.e[12 + c0];
        if s >= 0 {
            vstd::arithmetic::div_mod::lemma_div_is_ordered(
                s,
                0x200_0000_0000_0000_0000,
                FP_ONE as int,
            );
            vstd::arithmetic::div_mod::lemma_div_pos_is_pos(s, FP_ONE as int);
        } else {
            vstd::arithmetic::div_mod::lemma_div_is_ordered(
                -s,
                0x200_0000_0000_0000_0000,
                FP_ONE as int,
            );
            vstd::arithmetic::div_mod::lemma_div_pos_is_pos(-s, FP_ONE as int);
        }
    }
}

} // verus!
