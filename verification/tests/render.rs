use raytracer::accel::{
    intersect_cube_inverse_ray, Cube, Intersector, InvRay, NoAccelerationIntersector, OctNode,
    OctTreeAccelerationIntersector,
};
use raytracer::boxloader::BoxLoader;
use raytracer::camera::Camera;
use raytracer::color::{RGB, RGBA};
use raytracer::film::{Film, PixelData};
use raytracer::fixed::FP_ONE;
use raytracer::intersect::intersect;
use raytracer::raytracer::{compute_radiance, RayTracer, SampleGenerator};
use raytracer::scene::{Diffuse, Geometry, Light, Material, Scene};
use raytracer::tonemap::simple_map;
use raytracer::vecmath::{Matrix, Ray, Vec3, Vec4};

fn unit_cube() -> Cube {
    Cube {
        min: Vec3 { x: -FP_ONE, y: -FP_ONE, z: -FP_ONE },
        max: Vec3 { x: FP_ONE, y: FP_ONE, z: FP_ONE },
    }
}

fn tenth() -> i64 {
    6553
}

#[test]
fn test_intersect_cube_inverse_ray() {
    let cube = unit_cube();
    let ray = Ray {
        pos: Vec3 { x: 2 * FP_ONE, y: 0, z: 0 },
        dir: Vec3 { x: -FP_ONE, y: tenth(), z: tenth() },
    };
    let inv = InvRay::new(&ray);
    let t = intersect_cube_inverse_ray(&inv, &cube).unwrap();
    assert_eq!(t, FP_ONE);
}

#[test]
fn test_intersect_cube_inverse_ray_handles_inf() {
    let cube = unit_cube();
    // an axis-aligned direction has no inverse on the other axes, by design
    let ray = Ray {
        pos: Vec3 { x: 2 * FP_ONE, y: 0, z: 0 },
        dir: Vec3 { x: -FP_ONE, y: 0, z: 0 },
    };
    let inv = InvRay::new(&ray);
    let t = intersect_cube_inverse_ray(&inv, &cube).unwrap();
    assert_eq!(t, FP_ONE);
}

#[test]
fn test_intersect_cube_inverse_ray_start_inside() {
    let cube = unit_cube();
    let ray = Ray {
        pos: Vec3 { x: -58982, y: 0, z: 0 },
        dir: Vec3 { x: FP_ONE, y: tenth(), z: tenth() },
    };
    let inv = InvRay::new(&ray);
    let t = intersect_cube_inverse_ray(&inv, &cube).unwrap();
    assert!(t < 0);
}

#[test]
fn test_intersect_cube_inverse_ray_should_miss() {
    let cube = unit_cube();
    let ray = Ray {
        pos: Vec3 { x: -2 * FP_ONE, y: 0, z: 0 },
        dir: Vec3 { x: -FP_ONE, y: tenth(), z: tenth() },
    };
    let inv = InvRay::new(&ray);
    assert!(intersect_cube_inverse_ray(&inv, &cube).is_none());
}

#[test]
fn test_mul_identities() {
    let m0 = Matrix::ident();
    let m1 = Matrix::ident();
    let m2 = m0.mul(&m1);
    assert_eq!(m2, Matrix::ident());
}

#[test]
fn test_mul_vec_mat() {
    let v = Vec4::new(FP_ONE, 2 * FP_ONE, 3 * FP_ONE, 4 * FP_ONE);
    let m = Matrix::ident();
    let res = m.mul_vec4(&v);
    assert_eq!(res, Vec4::new(FP_ONE, 2 * FP_ONE, 3 * FP_ONE, 4 * FP_ONE));
}

#[test]
fn film_accumulation_is_order_independent() {
    let a = RGB { r: 100, g: 200, b: 300 };
    let b = RGB { r: 4000, g: 1, b: 77 };
    let c = RGB { r: 9, g: 9999, b: 123 };
    let mut p1 = PixelData::empty();
    p1.add_sample(a);
    p1.add_sample(b);
    p1.add_sample(c);
    let mut p2 = PixelData::empty();
    p2.add_sample(c);
    p2.add_sample(a);
    p2.add_sample(b);
    assert_eq!(p1.mean(), p2.mean());
    assert_eq!(p1.pixel_sum, p2.pixel_sum);
}

#[test]
fn film_zero_samples_is_black() {
    let p = PixelData::empty();
    assert_eq!(p.mean(), RGB { r: 0, g: 0, b: 0 });
    let film = Film::new(4);
    for px in film.get_pixels() {
        assert_eq!(px, RGB { r: 0, g: 0, b: 0 });
    }
}

fn one_triangle_scene(light_height: i64) -> Scene {
    // a triangle in the y = 0 plane whose flat normal points up
    let vertices = vec![
        Vec3 { x: -FP_ONE, y: 0, z: -FP_ONE },
        Vec3 { x: 0, y: 0, z: FP_ONE },
        Vec3 { x: FP_ONE, y: 0, z: -FP_ONE },
    ];
    let material = Material {
        diffuse: Diffuse::Color(RGB { r: FP_ONE, g: FP_ONE, b: FP_ONE }),
        emissive: RGB { r: 0, g: 0, b: 0 },
        specular: None,
        index_of_refraction: FP_ONE,
    };
    Scene {
        geometries: vec![Geometry::new(vertices, material)],
        lights: vec![Light {
            pos: Vec3 { x: 0, y: light_height, z: 0 },
            color: RGB { r: FP_ONE, g: FP_ONE, b: FP_ONE },
        }],
        cameras: vec![],
        textures: vec![],
    }
}

#[test]
fn direct_shading_is_positive_and_distance_free() {
    // a light-facing triangle, one light straight above: shading is
    // strictly positive, and with no attenuation in the model it does not
    // change when the light moves closer along the same direction
    let ray = Ray {
        pos: Vec3 { x: 0, y: FP_ONE, z: 0 },
        dir: Vec3 { x: 0, y: -FP_ONE, z: 0 },
    };
    let mut radiances = Vec::new();
    for height in [2 * FP_ONE, 4 * FP_ONE] {
        let scene = one_triangle_scene(height);
        let accel = NoAccelerationIntersector::new(&scene);
        let hit = accel.intersect_ray(&scene, &ray).unwrap();
        let mut sg = SampleGenerator::new();
        let r = compute_radiance(&accel, &scene, &ray, &hit, &mut sg, 0, 1);
        assert!(r.r > 0 && r.g > 0 && r.b > 0);
        radiances.push(r);
    }
    assert_eq!(radiances[0], radiances[1]);
}

#[test]
fn winding_order_does_not_change_hits() {
    let v0 = Vec3 { x: -FP_ONE, y: 0, z: -FP_ONE };
    let v1 = Vec3 { x: 0, y: 0, z: FP_ONE };
    let v2 = Vec3 { x: FP_ONE, y: 0, z: -FP_ONE };
    let hit_ray = Ray {
        pos: Vec3 { x: 0, y: FP_ONE, z: 0 },
        dir: Vec3 { x: 0, y: -FP_ONE, z: 0 },
    };
    let miss_ray = Ray {
        pos: Vec3 { x: 5 * FP_ONE, y: FP_ONE, z: 0 },
        dir: Vec3 { x: 0, y: -FP_ONE, z: 0 },
    };
    let a = intersect(&hit_ray, &v0, &v1, &v2).unwrap();
    let b = intersect(&hit_ray, &v0, &v2, &v1).unwrap();
    assert_eq!(a.t, b.t);
    assert_eq!(a.u, b.v);
    assert_eq!(a.v, b.u);
    assert!(intersect(&miss_ray, &v0, &v1, &v2).is_none());
    assert!(intersect(&miss_ray, &v0, &v2, &v1).is_none());
}

#[test]
fn octree_matches_brute_force() {
    let scene = BoxLoader::load().unwrap();
    let brute = NoAccelerationIntersector::new(&scene);
    for leaf_size in [1usize, 4, 64] {
        let oct = OctTreeAccelerationIntersector::with_triangles_per_leaf(&scene, leaf_size);
        for gx in -3i64..4 {
            for gy in -3i64..4 {
                let ray = Ray {
                    pos: Vec3 { x: 0, y: 0, z: -3 * FP_ONE },
                    dir: Vec3 { x: gx * 6553, y: gy * 6553, z: FP_ONE },
                };
                let a = brute.intersect_ray(&scene, &ray);
                let b = oct.intersect_ray(&scene, &ray);
                match (&a, &b) {
                    (None, None) => {}
                    (Some(ha), Some(hb)) => {
                        assert_eq!(ha.hit_info.t, hb.hit_info.t);
                        assert_eq!(ha.geometry_index, hb.geometry_index);
                        assert_eq!(ha.vertex_index, hb.vertex_index);
                    }
                    _ => panic!("octree and brute force disagree"),
                }
            }
        }
    }
}

#[test]
fn octree_small_scene_stays_single_leaf() {
    let scene = BoxLoader::load().unwrap();
    // twelve triangles, well under the threshold: no subdivision happens
    let oct = OctTreeAccelerationIntersector::with_triangles_per_leaf(&scene, 64);
    assert_eq!(oct.nodes.len(), 1);
    match &oct.nodes[0] {
        OctNode::Leaf(l) => assert_eq!(l.triangle_indices.len(), 12),
        OctNode::Node(_) => panic!("small scene must stay a single leaf"),
    }
    let deep = OctTreeAccelerationIntersector::with_triangles_per_leaf(&scene, 1);
    assert!(deep.nodes.len() > 1);
}

#[test]
fn camera_move_then_clear_resets_film() {
    let scene = BoxLoader::load().unwrap();
    let camera = Camera::new(32, 24, &Vec3 { x: 0, y: 0, z: 0 }, 60 * FP_ONE);
    let accel = NoAccelerationIntersector::new(&scene);
    let mut rt: RayTracer<NoAccelerationIntersector> =
        RayTracer::new_with_intersector(32, 24, camera, accel, scene);
    rt.trace_frame_additive();
    assert!(rt.film.pixel_datas.iter().any(|pd| pd.num_samples > 0));
    rt.camera.move_rel(6553, 0, 0);
    rt.film.clear();
    for p in rt.film.get_pixels() {
        assert_eq!(p, RGB { r: 0, g: 0, b: 0 });
    }
    for pd in rt.film.pixel_datas.iter() {
        assert_eq!(pd.num_samples, 0);
    }
}

#[test]
fn trace_frame_reports_ray_count() {
    let scene = BoxLoader::load().unwrap();
    let camera = Camera::new(16, 16, &Vec3 { x: 0, y: 0, z: 0 }, 60 * FP_ONE);
    let accel = NoAccelerationIntersector::new(&scene);
    let mut rt: RayTracer<NoAccelerationIntersector> =
        RayTracer::new_with_intersector(16, 16, camera, accel, scene);
    let n = rt.trace_frame_additive();
    assert_eq!(n, 50 * 16);
}

#[test]
fn pixel_packing_layout() {
    // full red, full opacity: blue lives in the low byte
    let p = RGBA::from_rgb(RGB { r: FP_ONE, g: 0, b: 0 }, FP_ONE).to_u32();
    assert_eq!(p, (255 << 16) | (255 << 24));
    let q = RGBA::from_rgb(RGB { r: 0, g: 0, b: FP_ONE }, 0).to_u32();
    assert_eq!(q, 255);
}

#[test]
fn simple_tonemap_compresses() {
    let half = simple_map(&RGB { r: FP_ONE, g: FP_ONE, b: FP_ONE });
    assert_eq!(half.r, FP_ONE / 2);
    let zero = simple_map(&RGB { r: 0, g: 0, b: 0 });
    assert_eq!(zero.r, 0);
    // large inputs stay under one
    let big = simple_map(&RGB { r: 1000 * FP_ONE, g: 0, b: 0 });
    assert!(big.r < FP_ONE);
}

#[test]
fn slab_test_pointed_away_misses_everywhere() {
    let cube = unit_cube();
    for (px, dx) in [(2 * FP_ONE, FP_ONE), (-2 * FP_ONE, -FP_ONE)] {
        let ray = Ray {
            pos: Vec3 { x: px, y: 0, z: 0 },
            dir: Vec3 { x: dx, y: tenth(), z: 0 },
        };
        let inv = InvRay::new(&ray);
        assert!(intersect_cube_inverse_ray(&inv, &cube).is_none());
    }
}

#[test]
fn slab_inside_near_face_still_reports_inside() {
    // origin centered, a very large direction component: the far bound
    // rounds outward, so the inside start still reports a negative entry
    let cube = unit_cube();
    let ray = Ray {
        pos: Vec3 { x: 0, y: 0, z: 0 },
        dir: Vec3 { x: 0x8000_0000, y: 0, z: 0 },
    };
    let inv = InvRay::new(&ray);
    let t = intersect_cube_inverse_ray(&inv, &cube).unwrap();
    assert!(t < 0);
    // and one fixed-point unit away from a face
    let ray2 = Ray {
        pos: Vec3 { x: FP_ONE - 1, y: 0, z: 0 },
        dir: Vec3 { x: 0x8000_0000, y: 0, z: 0 },
    };
    let inv2 = InvRay::new(&ray2);
    let t2 = intersect_cube_inverse_ray(&inv2, &cube).unwrap();
    assert!(t2 < 0);
}
