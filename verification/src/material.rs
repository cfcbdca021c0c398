//! Materials: how a surface scatters an incoming ray and what it emits.
//!
//! The material set is closed, so it is a tagged enumeration: Lambertian
//! diffuse, Metal specular, and DiffuseLight pure emitter. Materials are
//! shared between primitives through a reference-counted handle and never
//! mutated after construction.

use std::sync::Arc;

use vstd::prelude::*;

use crate::hit::HitRecord;
use crate::ray::{Ray, RayV};
use crate::vec3::{
    dot_m, ls_m, v3_add, v3_near_zero, v3_normalized, v3_reflect, Color, Vec3, V3,
};
use crate::fx::{Fx, SCALE};

verus! {

/// The color black: no radiance on any channel.
pub open spec fn black_v() -> V3 {
    V3 { x: 0, y: 0, z: 0 }
}

/// `u` is the result of normalizing some draw from inside the unit sphere.
pub open spec fn is_unit_draw(u: V3) -> bool {
    exists|s: V3| 1 <= ls_m(s) <= SCALE as int && u == v3_normalized(s)
}

/// A diffuse surface: always scatters, around the surface normal.
#[derive(Clone, Debug)]
pub struct Lambertian {
    albedo: Color,
}

/// A specular surface: reflects, and absorbs grazing rays.
#[derive(Clone, Debug)]
pub struct Metal {
    albedo: Color,
}

/// A pure emitter: never scatters, radiates its fixed color.
#[derive(Clone, Debug)]
pub struct DiffuseLight {
    albedo: Color,
}

/// The closed set of materials a primitive can carry.
#[derive(Clone, Debug)]
pub enum Material {
    Lambertian(Lambertian),
    Metal(Metal),
    DiffuseLight(DiffuseLight),
}

impl Lambertian {
    pub closed spec fn albedo_v(self) -> V3 {
        self.albedo@
    }

    pub fn new(a: Color) -> (r: Lambertian)
        ensures
            r.albedo_v() == a@,
    {
        Lambertian { albedo: a }
    }

    /// Scatter toward `normal + u` for a fresh unit draw `u`, with the bare
    /// normal as fallback when the sum is too short to be a direction.
    pub fn scatter(&self, r_in: &Ray, rec: &HitRecord) -> (res: Option<(Color, Ray)>)
        ensures
            res is Some,
            res matches Some((att, sc)) ==> {
                &&& att@ == self.albedo_v()
                &&& sc@.orig == rec.p@
                &&& (sc@.dir == rec.normal@ || (!v3_near_zero(sc@.dir) && exists|u: V3|
                    is_unit_draw(u) && sc@.dir == v3_add(rec.normal@, u)))
            },
    {
        let draw = Vec3::random_in_unit_sphere();
        let unit = draw.normalized();
        let mut scatter_direction = rec.normal.add(unit);
        if scatter_direction.near_zero() {
            scatter_direction = rec.normal;
        } else {
            proof {
                assert(is_unit_draw(unit@));
            }
        }
        let scattered = Ray::new(rec.p, scatter_direction);
        Some((self.albedo, scattered))
    }

    pub fn emitted(&self) -> (r: Color)
        ensures
            r@ == black_v(),
    {
        Color::new(Fx::from_millionths(0), Fx::from_millionths(0), Fx::from_millionths(0))
    }
}

/// What Metal's scatter returns: the reflection of the incoming direction,
/// normalized; absorbed when the reflection is degenerate or does not point
/// away from the surface.
pub open spec fn metal_scatter_m(albedo: V3, r_in: RayV, rec_p: V3, rec_normal: V3) -> Option<
    (V3, RayV),
> {
    let refl = v3_reflect(r_in.dir, rec_normal);
    if ls_m(refl) < 1 {
        None
    } else {
        let dir = v3_normalized(refl);
        if dot_m(dir, rec_normal) > 0 {
            Some((albedo, RayV { orig: rec_p, dir }))
        } else {
            None
        }
    }
}

impl Metal {
    pub closed spec fn albedo_v(self) -> V3 {
        self.albedo@
    }

    pub fn new(a: Color) -> (r: Metal)
        ensures
            r.albedo_v() == a@,
    {
        Metal { albedo: a }
    }

    /// A reflection too short to normalize counts as absorbed, like a
    /// reflection that fails the outward test.
    pub fn scatter(&self, r_in: &Ray, rec: &HitRecord) -> (res: Option<(Color, Ray)>)
        ensures
            match res {
                Some((att, sc)) => metal_scatter_m(self.albedo_v(), r_in@, rec.p@, rec.normal@)
                    == Some((att@, sc@)),
                None => metal_scatter_m(self.albedo_v(), r_in@, rec.p@, rec.normal@) is None,
            },
    {
        let reflected = r_in.direction().reflection(rec.normal);
        if reflected.length_squared().m < 1 {
            return None;
        }
        let dir = reflected.normalized();
        let scattered = Ray::new(rec.p, dir);
        if Fx::from_millionths(0).lt(dir.dot(rec.normal)) {
            Some((self.albedo, scattered))
        } else {
            None
        }
    }

    pub fn emitted(&self) -> (r: Color)
        ensures
            r@ == black_v(),
    {
        Color::new(Fx::from_millionths(0), Fx::from_millionths(0), Fx::from_millionths(0))
    }
}

impl DiffuseLight {
    pub closed spec fn albedo_v(self) -> V3 {
        self.albedo@
    }

    pub fn new(a: Color) -> (r: DiffuseLight)
        ensures
            r.albedo_v() == a@,
    {
        DiffuseLight { albedo: a }
    }

    pub fn scatter(&self, r_in: &Ray, rec: &HitRecord) -> (res: Option<(Color, Ray)>)
        ensures
            res is None,
    {
        None
    }

    pub fn emitted(&self) -> (r: Color)
        ensures
            r@ == self.albedo_v(),
    {
        self.albedo
    }
}

/// What a material emits: its radiance for a light, black otherwise.
pub open spec fn emitted_m(m: Material) -> V3 {
    match m {
        Material::DiffuseLight(d) => d.albedo_v(),
        _ => black_v(),
    }
}

impl Material {
    pub fn scatter(&self, r_in: &Ray, rec: &HitRecord) -> (res: Option<(Color, Ray)>)
        ensures
            self is DiffuseLight ==> res is None,
            res matches Some((att, sc)) ==> sc@.orig == rec.p@,
            self matches Material::Lambertian(l) ==> res is Some,
            self matches Material::Lambertian(l) ==> (res matches Some((att, sc)) ==> att@
                == l.albedo_v()),
            self matches Material::Metal(mt) ==> (match res {
                Some((att, sc)) => metal_scatter_m(mt.albedo_v(), r_in@, rec.p@, rec.normal@)
                    == Some((att@, sc@)),
                None => metal_scatter_m(mt.albedo_v(), r_in@, rec.p@, rec.normal@) is None,
            }),
    {
        match self {
            Material::Lambertian(l) => l.scatter(r_in, rec),
            Material::Metal(mt) => mt.scatter(r_in, rec),
            Material::DiffuseLight(d) => d.scatter(r_in, rec),
        }
    }

    pub fn emitted(&self) -> (r: Color)
        ensures
            r@ == emitted_m(*self),
    {
        match self {
            Material::Lambertian(l) => l.emitted(),
            Material::Metal(mt) => mt.emitted(),
            Material::DiffuseLight(d) => d.emitted(),
        }
    }
}

} // verus!
