use std::sync::Arc;

use raytracer::aabb::{Aabb, Interval};
use raytracer::camera::Camera;
use raytracer::fx::Fx;
use raytracer::hit::{HittableList, Primitive};
use raytracer::material::{DiffuseLight, Lambertian, Material, Metal};
use raytracer::planes::Plane;
use raytracer::ray::Ray;
use raytracer::sphere::Sphere;
use raytracer::vec3::Vec3;

fn fx(m: i64) -> Fx {
    Fx::from_millionths(m)
}

fn v3(x: i64, y: i64, z: i64) -> Vec3 {
    Vec3::new(fx(x), fx(y), fx(z))
}

fn assert_close(a: i64, b: i64, tol: i64) {
    assert!((a - b).abs() <= tol, "expected {} ~ {} (tol {})", a, b, tol);
}

fn gray(m: i64) -> Arc<Material> {
    Arc::new(Material::Lambertian(Lambertian::new(v3(m, m, m))))
}

#[test]
fn fx_arithmetic_is_exact_where_exact() {
    assert_eq!(fx(2_500_000).add(fx(-1_000_000)).m, 1_500_000);
    assert_eq!(fx(2_000_000).mul(fx(3_000_000)).m, 6_000_000);
    assert_eq!(fx(1_000_000).div(fx(4_000_000)).m, 250_000);
    assert_eq!(fx(9_000_000).sqrt().m, 3_000_000);
    assert_eq!(fx(2_000_000).sqrt().m, 1_414_213);
    // floor rounding, also below zero
    assert_eq!(fx(1).mul(fx(1)).m, 0);
    assert_eq!(fx(-1).div(fx(3_000_000)).m, -1);
}

#[test]
fn vec3_dot_cross_length() {
    let a = v3(1_000_000, 2_000_000, 3_000_000);
    let b = v3(-1_000_000, 500_000, 2_000_000);
    assert_eq!(a.dot(b).m, -1_000_000 + 1_000_000 + 6_000_000);
    let c = a.cross(b);
    // (2*2 - 3*0.5, 3*(-1) - 1*2, 1*0.5 - 2*(-1))
    assert_eq!(c.x().m, 2_500_000);
    assert_eq!(c.y().m, -5_000_000);
    assert_eq!(c.z().m, 2_500_000);
    assert_eq!(v3(3_000_000, 4_000_000, 0).length().m, 5_000_000);
}

#[test]
fn vec3_reflection_about_normal() {
    // v - 2 dot(v,n) n with v = (1,0,-1), n = (0,0,1): reflection (1,0,1)
    let v = v3(1_000_000, 0, -1_000_000);
    let n = v3(0, 0, 1_000_000);
    let r = v.reflection(n);
    assert_eq!(r.x().m, 1_000_000);
    assert_eq!(r.y().m, 0);
    assert_eq!(r.z().m, 1_000_000);
}

#[test]
fn random_in_unit_sphere_is_normalizable() {
    for _ in 0..200 {
        let v = Vec3::random_in_unit_sphere();
        let ls = v.length_squared().m;
        assert!(1 <= ls && ls <= 1_000_000, "squared length {} out of range", ls);
        let u = v.normalized();
        // a normalized draw has length close to one
        assert_close(u.length().m, 1_000_000, 3_000);
    }
}

#[test]
fn ray_at_walks_the_direction() {
    let r = Ray::new(v3(1_000_000, 0, 0), v3(0, 0, -2_000_000));
    let p = r.at(fx(500_000));
    assert_eq!(p.x().m, 1_000_000);
    assert_eq!(p.y().m, 0);
    assert_eq!(p.z().m, -1_000_000);
}

// For any point returned by Sphere::hit, its distance to the center is the
// radius, up to the kernel's rounding.
#[test]
fn sphere_hit_point_lies_on_the_sphere() {
    let s = Sphere::new(v3(0, 0, -1_000_000), fx(500_000), gray(500_000));
    let rays = [
        Ray::new(v3(0, 0, 0), v3(0, 0, -1_000_000)),
        Ray::new(v3(0, 0, 0), v3(100_000, -50_000, -1_000_000)),
        Ray::new(v3(2_000_000, 100_000, -1_000_000), v3(-1_000_000, 0, 0)),
        Ray::new(v3(0, 2_000_000, -1_000_000), v3(30_000, -970_000, 10_000)),
    ];
    for r in rays.iter() {
        if let Some(rec) = s.hit(r, fx(1_000), fx(i64::MAX)) {
            let d = rec.p.sub(v3(0, 0, -1_000_000)).length();
            assert_close(d.m, 500_000, 3_000);
        }
    }
    // the straight-on ray must actually hit, exactly at t = 0.5
    let rec = s.hit(&rays[0], fx(1_000), fx(i64::MAX)).expect("must hit");
    assert_eq!(rec.t.m, 500_000);
    assert_eq!(rec.p.z().m, -500_000);
    assert!(rec.front_face);
}

// A ray along the sphere's diameter hits at t = distance - r, and at
// t = distance + r once the near root is excluded by the window.
#[test]
fn sphere_hit_is_reflection_symmetric() {
    let s = Sphere::new(v3(0, 0, -1_000_000), fx(500_000), gray(500_000));
    // from +z side, distance 3
    let from_front = Ray::new(v3(0, 0, 2_000_000), v3(0, 0, -1_000_000));
    let rec = s.hit(&from_front, fx(1_000), fx(i64::MAX)).expect("must hit");
    assert_eq!(rec.t.m, 2_500_000);
    // from -z side, distance 3
    let from_back = Ray::new(v3(0, 0, -4_000_000), v3(0, 0, 1_000_000));
    let rec = s.hit(&from_back, fx(1_000), fx(i64::MAX)).expect("must hit");
    assert_eq!(rec.t.m, 2_500_000);
    // excluding the near root exposes the far one at distance + r
    let rec = s.hit(&from_front, fx(2_600_000), fx(i64::MAX)).expect("must hit far root");
    assert_eq!(rec.t.m, 3_500_000);
}

#[test]
fn sphere_miss_returns_none() {
    let s = Sphere::new(v3(0, 0, -2_000_000), fx(500_000), gray(500_000));
    let r = Ray::new(v3(0, 0, 0), v3(0, 1_000_000, 0));
    assert!(s.hit(&r, fx(1_000), fx(i64::MAX)).is_none());
    // hit exists but lies outside the window
    let toward = Ray::new(v3(0, 0, 0), v3(0, 0, -1_000_000));
    assert!(s.hit(&toward, fx(1_000), fx(1_200_000)).is_none());
}

#[test]
fn plane_hit_and_parallel_miss() {
    let mat = gray(800_000);
    let pl = Plane::new(v3(0, 1_000_000, 0), fx(-500_000), mat);
    // straight down from the origin: dot(p, n) = -0.5 at y = -0.5, t = 0.5
    let down = Ray::new(v3(0, 0, 0), v3(0, -1_000_000, 0));
    let rec = pl.hit(&down, fx(1_000), fx(i64::MAX)).expect("must hit");
    assert_eq!(rec.t.m, 500_000);
    assert_eq!(rec.p.y().m, -500_000);
    assert!(rec.front_face);
    // parallel ray never hits
    let level = Ray::new(v3(0, 0, 0), v3(1_000_000, 0, 0));
    assert!(pl.hit(&level, fx(1_000), fx(i64::MAX)).is_none());
}

// Interval::from_two_intervals always yields the envelope, and is
// idempotent when both arguments are equal.
#[test]
fn interval_union_is_envelope_and_idempotent() {
    let a = Interval::new(fx(1_000_000), fx(2_000_000));
    let b = Interval::new(fx(-3_000_000), fx(500_000));
    let u = Interval::from_two_intervals(a, b);
    assert_eq!(u.min.m, -3_000_000);
    assert_eq!(u.max.m, 2_000_000);
    let same = Interval::from_two_intervals(a, a);
    assert_eq!(same.min.m, a.min.m);
    assert_eq!(same.max.m, a.max.m);
}

#[test]
fn interval_size_and_expand() {
    let mut a = Interval::new(fx(-1_000_000), fx(2_000_000));
    assert_eq!(a.size().m, 3_000_000);
    a.expand(fx(1_000_000));
    assert_eq!(a.min.m, -1_500_000);
    assert_eq!(a.max.m, 2_500_000);
}

// A ray through the box's center hits for any window that brackets t = 0;
// a ray parallel to a slab and outside it never hits.
#[test]
fn aabb_slab_test_center_and_outside() {
    let b = Aabb::new(v3(-1_000_000, -1_000_000, -1_000_000), v3(1_000_000, 1_000_000, 1_000_000));
    let through = Ray::new(v3(0, 0, 0), v3(300_000, 200_000, 900_000));
    assert!(b.hit(&through, Interval::new(fx(-10_000_000), fx(10_000_000))));
    assert!(b.hit(&through, Interval::new(fx(-1_000), fx(1_000))));
    // zero direction components, origin inside: still a hit
    let still = Ray::new(v3(0, 0, 0), v3(0, 0, 1_000_000));
    assert!(b.hit(&still, Interval::new(fx(-10_000_000), fx(10_000_000))));
    // parallel to the x slab, outside it on every axis value of t
    let outside = Ray::new(v3(5_000_000, 5_000_000, 5_000_000), v3(0, 0, 1_000_000));
    assert!(!b.hit(&outside, Interval::new(fx(-10_000_000), fx(10_000_000))));
}

#[test]
fn aabb_axis_selects_intervals() {
    let b = Aabb::new(v3(1_000_000, 2_000_000, 3_000_000), v3(-1_000_000, 5_000_000, 0));
    assert_eq!(b.axis(0).min.m, -1_000_000);
    assert_eq!(b.axis(0).max.m, 1_000_000);
    assert_eq!(b.axis(1).min.m, 2_000_000);
    assert_eq!(b.axis(1).max.m, 5_000_000);
    assert_eq!(b.axis(2).min.m, 0);
    assert_eq!(b.axis(2).max.m, 3_000_000);
    // anything else falls back to x
    assert_eq!(b.axis(7).min.m, -1_000_000);
}

fn unit_box() -> Aabb {
    Aabb::new(v3(0, 0, 0), v3(0, 0, 0))
}

// The aggregate returns the record of the closest individual hit, for
// either insertion order.
#[test]
fn world_hit_matches_closest_primitive() {
    let near = Sphere::new(v3(0, 0, -1_000_000), fx(250_000), gray(700_000));
    let far = Sphere::new(v3(0, 0, -3_000_000), fx(500_000), gray(300_000));
    let ray = Ray::new(v3(0, 0, 0), v3(0, 0, -1_000_000));
    let t_near = near.hit(&ray, fx(1_000), fx(i64::MAX)).expect("near hits").t.m;

    let mut w1 = HittableList::new(Vec::new(), unit_box());
    w1.push(Primitive::Sphere(near));
    w1.push(Primitive::Sphere(far));
    let r1 = w1.hit(&ray, fx(1_000), fx(i64::MAX)).expect("world hits");

    let near2 = Sphere::new(v3(0, 0, -1_000_000), fx(250_000), gray(700_000));
    let far2 = Sphere::new(v3(0, 0, -3_000_000), fx(500_000), gray(300_000));
    let mut w2 = HittableList::new(Vec::new(), unit_box());
    w2.push(Primitive::Sphere(far2));
    w2.push(Primitive::Sphere(near2));
    let r2 = w2.hit(&ray, fx(1_000), fx(i64::MAX)).expect("world hits");

    assert_eq!(r1.t.m, t_near);
    assert_eq!(r2.t.m, t_near);
    assert_eq!(r1.p.z().m, r2.p.z().m);
}

#[test]
fn world_push_updates_bounding_box() {
    let mut w = HittableList::new(Vec::new(), unit_box());
    let s = Sphere::new(v3(2_000_000, 0, 0), fx(500_000), gray(500_000));
    w.push(Primitive::Sphere(s));
    let b = w.bounding_box().expect("always cached");
    assert_eq!(b.axis(0).min.m, 0);
    assert_eq!(b.axis(0).max.m, 2_500_000);
}

#[test]
fn materials_scatter_and_emit() {
    let rec_normal = v3(0, 0, 1_000_000);
    let rec = raytracer::hit::HitRecord {
        p: v3(0, 0, 0),
        normal: rec_normal,
        mat: gray(500_000),
        t: fx(1_000_000),
        front_face: true,
    };
    // Lambertian always scatters from the hit point with its albedo
    let lam = Lambertian::new(v3(700_000, 300_000, 300_000));
    let r_in = Ray::new(v3(0, 0, 1_000_000), v3(0, 0, -1_000_000));
    let (att, sc) = lam.scatter(&r_in, &rec).expect("always scatters");
    assert_eq!(att.x().m, 700_000);
    assert_eq!(sc.origin().z().m, 0);
    assert_eq!(lam.emitted().x().m, 0);
    // Metal reflects an oblique ray and absorbs one reflected inward
    let met = Metal::new(v3(800_000, 600_000, 200_000));
    let oblique = Ray::new(v3(-1_000_000, 0, 1_000_000), v3(1_000_000, 0, -1_000_000));
    let (att, sc) = met.scatter(&oblique, &rec).expect("reflects");
    assert_eq!(att.y().m, 600_000);
    assert_close(sc.direction().x().m, 707_106, 2_000);
    assert_close(sc.direction().z().m, 707_106, 2_000);
    let inward = Ray::new(v3(0, 0, 1_000_000), v3(0, 0, 1_000_000));
    assert!(met.scatter(&inward, &rec).is_none());
    // DiffuseLight never scatters and emits its color
    let light = DiffuseLight::new(v3(4_000_000, 4_000_000, 4_000_000));
    assert!(light.scatter(&r_in, &rec).is_none());
    assert_eq!(light.emitted().z().m, 4_000_000);
}

fn simple_camera() -> Camera {
    Camera::new(
        v3(0, 0, 0),
        v3(0, 0, -1_000_000),
        v3(0, 1_000_000, 0),
        fx(90_000_000),
        fx(2_000_000),
        v3(500_000, 700_000, 1_000_000),
    )
}

// Camera::get_ray at the four corners passes through the corners of the
// viewport implied by the field of view and aspect ratio.
#[test]
fn camera_corner_rays_span_the_viewport() {
    let cam = simple_camera();
    // vfov 90, aspect 2: viewport is 4 wide, 2 high, focal length 1
    let cases = [
        (0, 0, -2_000_000, -1_000_000),
        (1_000_000, 0, 2_000_000, -1_000_000),
        (0, 1_000_000, -2_000_000, 1_000_000),
        (1_000_000, 1_000_000, 2_000_000, 1_000_000),
    ];
    for (s, t, ex, ey) in cases.iter() {
        let ray = cam.get_ray(fx(*s), fx(*t));
        assert_eq!(ray.origin().x().m, 0);
        let p = ray.at(fx(1_000_000));
        assert_close(p.x().m, *ex, 300);
        assert_close(p.y().m, *ey, 300);
        assert_close(p.z().m, -1_000_000, 300);
    }
}

// Shading with an exhausted bounce budget is black whatever the scene.
#[test]
fn ray_color_depth_zero_is_black() {
    let cam = simple_camera();
    let light = Arc::new(Material::DiffuseLight(DiffuseLight::new(v3(
        4_000_000, 4_000_000, 4_000_000,
    ))));
    let mut w = HittableList::new(Vec::new(), unit_box());
    w.push(Primitive::Sphere(Sphere::new(v3(0, 0, -1_000_000), fx(500_000), light)));
    let r = Ray::new(v3(0, 0, 0), v3(0, 0, -1_000_000));
    let c = cam.ray_color(&r, &w, 0);
    assert_eq!((c.x().m, c.y().m, c.z().m), (0, 0, 0));
}

// A light-only scene returns exactly the emission color on a direct hit.
#[test]
fn ray_color_direct_light_is_emission() {
    let cam = simple_camera();
    let light = Arc::new(Material::DiffuseLight(DiffuseLight::new(v3(
        4_000_000, 3_000_000, 2_000_000,
    ))));
    let mut w = HittableList::new(Vec::new(), unit_box());
    w.push(Primitive::Sphere(Sphere::new(v3(0, 0, -1_000_000), fx(500_000), light)));
    let r = Ray::new(v3(0, 0, 0), v3(0, 0, -1_000_000));
    let c = cam.ray_color(&r, &w, 5);
    assert_eq!((c.x().m, c.y().m, c.z().m), (4_000_000, 3_000_000, 2_000_000));
}

// On a miss the background color comes back unchanged.
#[test]
fn ray_color_miss_is_background() {
    let cam = simple_camera();
    let w = HittableList::new(Vec::new(), unit_box());
    let r = Ray::new(v3(0, 0, 0), v3(0, 1_000_000, 0));
    let c = cam.ray_color(&r, &w, 5);
    assert_eq!((c.x().m, c.y().m, c.z().m), (500_000, 700_000, 1_000_000));
}

// End-to-end: one Lambertian and one Metal sphere under a sky-blue
// background; a center ray at depth 5 terminates and stays within [0, 1]
// on every channel.
#[test]
fn end_to_end_center_ray_is_bounded() {
    let lam = Arc::new(Material::Lambertian(Lambertian::new(v3(700_000, 300_000, 300_000))));
    let met = Arc::new(Material::Metal(Metal::new(v3(800_000, 600_000, 200_000))));
    let mut w = HittableList::new(Vec::new(), unit_box());
    w.push(Primitive::Sphere(Sphere::new(v3(0, 0, -1_000_000), fx(500_000), lam)));
    w.push(Primitive::Sphere(Sphere::new(v3(1_500_000, 0, -1_500_000), fx(500_000), met)));
    let cam = Camera::new(
        v3(0, 0, 0),
        v3(0, 0, -1_000_000),
        v3(0, 1_000_000, 0),
        fx(90_000_000),
        fx(1_777_778),
        v3(500_000, 700_000, 1_000_000),
    );
    let r = cam.get_ray(fx(500_000), fx(500_000));
    let c = cam.ray_color(&r, &w, 5);
    for ch in [c.x().m, c.y().m, c.z().m].iter() {
        assert!(0 <= *ch && *ch <= 1_000_000, "channel {} out of [0, 1]", ch);
    }
}

// The packed evaluation strategy agrees with the scalar one on the same
// inputs: both are proved against the same specifications.
#[test]
fn packed_strategy_matches_scalar() {
    let s = Sphere::new(v3(100_000, -200_000, -1_500_000), fx(700_000), gray(500_000));
    let rays = [
        Ray::new(v3(0, 0, 0), v3(100_000, -100_000, -1_000_000)),
        Ray::new(v3(0, 0, 2_000_000), v3(0, 0, -1_000_000)),
        Ray::new(v3(3_000_000, 0, 0), v3(0, 1_000_000, 0)),
    ];
    for r in rays.iter() {
        let p1 = r.at(fx(1_234_567));
        let p2 = r.reg_at(fx(1_234_567));
        assert_eq!((p1.x().m, p1.y().m, p1.z().m), (p2.x().m, p2.y().m, p2.z().m));
        let scalar = s.hit(r, fx(1_000), fx(i64::MAX));
        let packed = s.reg_hit(r, fx(1_000), fx(i64::MAX));
        match (scalar, packed) {
            (None, None) => {}
            (Some(a), Some(b)) => {
                assert_eq!(a.t.m, b.t.m);
                assert_eq!((a.p.x().m, a.p.y().m, a.p.z().m), (b.p.x().m, b.p.y().m, b.p.z().m));
                assert_eq!(
                    (a.normal.x().m, a.normal.y().m, a.normal.z().m),
                    (b.normal.x().m, b.normal.y().m, b.normal.z().m)
                );
                assert_eq!(a.front_face, b.front_face);
            }
            _ => panic!("strategies disagree on whether the ray hits"),
        }
    }
}

#[test]
fn packed_world_scan_matches_scalar() {
    let mut w = HittableList::new(Vec::new(), unit_box());
    w.push(Primitive::Sphere(Sphere::new(v3(0, 0, -1_000_000), fx(250_000), gray(700_000))));
    w.push(Primitive::Sphere(Sphere::new(v3(0, 0, -3_000_000), fx(500_000), gray(300_000))));
    let ray = Ray::new(v3(0, 0, 0), v3(0, 0, -1_000_000));
    let a = w.hit(&ray, fx(1_000), fx(i64::MAX)).expect("hits");
    let b = w.reg_hit(&ray, fx(1_000), fx(i64::MAX)).expect("hits");
    assert_eq!(a.t.m, b.t.m);
}
