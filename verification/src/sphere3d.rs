//! The sphere primitive: center, positive radius, flat diffuse color.
//! Carries the geometric ray--sphere intersection and the outward
//! surface normal.

use vstd::prelude::*;
use vstd::arithmetic::div_mod::{
    lemma_div_multiples_vanish, lemma_div_pos_is_pos, lemma_fundamental_div_mod,
};
use crate::fixed::{
    fdiv, fdiv_spec, fits_i64, fmul, fmul_spec, fsqrt, fsqrt_spec, is_isqrt, lemma_fmul_bound,
    lemma_isqrt_lt, lemma_isqrt_unique, COORD_MAX, DIR_MAX, HIT_MAX, SCALE,
};
use crate::ppm::Color;
use crate::ray::Ray;
use crate::vector_library::{
    between_spec, dot_spec, in_range, lemma_dot_bound, lemma_dot_self_nonneg, lemma_fdiv_bound,
    on_half_line_spec, Point3D, Vec3D, V3,
};

verus! {

/// A sphere in the scene.
#[derive(Clone, Copy, PartialEq, Eq, Structural, Debug)]
pub struct Sphere3D {
    pub center: Point3D,
    pub radius: i64,
    pub color: Color,
}

/// The near intersection of a ray `(origin, dir)` with the sphere
/// `(center, radius)`:
/// the center offset is projected onto the ray direction; a center that
/// projects behind the origin is rejected outright, then the squared
/// half-chord `disc` decides whether the ray meets the sphere, and the
/// entry point lies at parameter `v - sqrt(disc)` along the ray.
pub open spec fn intersect_spec(center: V3, radius: int, origin: V3, dir: V3) -> Option<V3> {
    let eo = between_spec(origin, center);
    let v = dot_spec(eo, dir);
    if v < 0 {
        None
    } else {
        let disc = fmul_spec(radius, radius) - (dot_spec(eo, eo) - fmul_spec(v, v));
        if disc < 0 {
            None
        } else {
            Some(on_half_line_spec(origin, dir, v - fsqrt_spec(disc)))
        }
    }
}

/// The outward surface normal at `p`: the offset from the center,
/// divided component by component by the radius.
pub open spec fn normal_spec(center: V3, radius: int, p: V3) -> V3 {
    V3 {
        x: fdiv_spec(p.x - center.x, radius),
        y: fdiv_spec(p.y - center.y, radius),
        z: fdiv_spec(p.z - center.z, radius),
    }
}

/// A ray cast from the origin straight down the -z axis into a sphere
/// centered on the negative z-axis meets it at the near surface point
/// `center + (0, 0, radius)`. The result is exact whenever the squared
/// radius lands on the fixed-point scale, as every whole multiple of
/// 1/256 of a unit does.
pub proof fn lemma_axis_ray_hits_near_surface(cz: int, r: int)
    requires
        cz < 0,
        0 < r,
        (r * r) % (SCALE as int) == 0,
    ensures
        intersect_spec(
            V3 { x: 0, y: 0, z: cz },
            r,
            V3 { x: 0, y: 0, z: 0 },
            V3 { x: 0, y: 0, z: -(SCALE as int) },
        ) == Some(V3 { x: 0, y: 0, z: cz + r }),
{
    let s = SCALE as int;
    // The projection of the center offset onto the ray direction is the
    // center's depth, exactly.
    assert(cz * (-s) == s * (-cz)) by (nonlinear_arith);
    lemma_div_multiples_vanish(-cz, s);
    assert(fmul_spec(cz, -s) == -cz);
    let v = -cz;
    // Both squared terms of the half-chord share one exact product.
    assert((-cz) * (-cz) == cz * cz) by (nonlinear_arith);
    // The half-chord of a centered hit is the radius itself.
    assert(r * r >= 0) by (nonlinear_arith);
    lemma_div_pos_is_pos(r * r, s);
    let disc = fmul_spec(r, r);
    lemma_fundamental_div_mod(r * r, s);
    assert(disc * s == r * r);
    assert(r * r < (r + 1) * (r + 1)) by (nonlinear_arith)
        requires
            0 < r,
    ;
    assert(is_isqrt(disc * s, r));
    lemma_isqrt_unique(disc * s, r);
    // So the hit parameter is `-cz - r`, and the materialized point sits
    // at depth `cz + r`.
    let t = v - r;
    assert(t * (-s) == s * (-t)) by (nonlinear_arith);
    lemma_div_multiples_vanish(-t, s);
    assert(fmul_spec(t, -s) == -t);
    assert(fmul_spec(t, 0) == 0) by {
        assert(t * 0 == 0) by (nonlinear_arith);
        lemma_div_pos_is_pos(0, s);
        assert(0int / s <= 0) by (nonlinear_arith)
            requires
                s == 65536,
        ;
    }
}

impl Sphere3D {
    /// The center lies in the coordinate range and the radius is
    /// positive and in range.
    pub open spec fn wf(&self) -> bool {
        &&& in_range(self.center@, COORD_MAX as int)
        &&& 1 <= self.radius <= COORD_MAX
    }

    /// A new sphere, mid-gray by default.
    pub fn new(cx: i64, cy: i64, cz: i64, radius: i64) -> (r: Sphere3D)
        ensures
            r.center@ == (V3 { x: cx as int, y: cy as int, z: cz as int }),
            r.radius == radius,
            r.color.r == 128 && r.color.g == 128 && r.color.b == 128,
    {
        Sphere3D { center: Point3D::new(cx, cy, cz), radius, color: Color::new(128, 128, 128) }
    }

    /// The sphere moved by the given offset; the color resets to the
    /// default, as a fresh sphere is built.
    pub fn translate(&self, tx: i64, ty: i64, tz: i64) -> (r: Sphere3D)
        requires
            fits_i64(self.center@.x + tx),
            fits_i64(self.center@.y + ty),
            fits_i64(self.center@.z + tz),
        ensures
            r.center@.x == self.center@.x + tx,
            r.center@.y == self.center@.y + ty,
            r.center@.z == self.center@.z + tz,
            r.radius == self.radius,
            r.color.r == 128 && r.color.g == 128 && r.color.b == 128,
    {
        let c = &self.center;
        Sphere3D::new(c.x() + tx, c.y() + ty, c.z() + tz, self.radius)
    }

    /// Where the ray first meets this sphere, if it does. A miss — the
    /// center projecting behind the ray origin, or the ray passing
    /// outside the radius — is an expected outcome, not a fault.
    pub fn intersect(&self, ray: &Ray) -> (r: Option<Point3D>)
        requires
            self.wf(),
            ray.wf(),
        ensures
            match r {
                Some(p) => {
                    &&& intersect_spec(self.center@, self.radius as int, ray@.origin, ray@.direction)
                        == Some(p@)
                    &&& in_range(p@, 51 * COORD_MAX as int)
                },
                None => intersect_spec(
                    self.center@,
                    self.radius as int,
                    ray@.origin,
                    ray@.direction,
                ) is None,
            },
    {
        let point_e = ray.origin();
        let vec_v = ray.direction();
        let point_o = &self.center;
        proof {
            lemma_dot_bound(
                between_spec(point_e@, point_o@),
                vec_v@,
                2 * COORD_MAX as int,
                DIR_MAX as int,
            );
        }
        let vec_eo = Vec3D::between(point_e, point_o);
        let val = vec_eo.dot(vec_v);
        if val < 0 {
            return None;
        }
        proof {
            lemma_fmul_bound(self.radius as int, self.radius as int, COORD_MAX as int, COORD_MAX as int);
            lemma_dot_bound(vec_eo@, vec_eo@, 2 * COORD_MAX as int, 2 * COORD_MAX as int);
            lemma_fmul_bound(val as int, val as int, 12 * COORD_MAX as int, 12 * COORD_MAX as int);
        }
        proof {
            lemma_dot_self_nonneg(vec_eo@);
        }
        let rad = self.radius;
        let disc = fmul(rad, rad) - (vec_eo.dot(&vec_eo) - fmul(val, val));
        if disc < 0 {
            None
        } else {
            let d = fsqrt(disc);
            proof {
                lemma_isqrt_lt((disc as int) * (SCALE as int), 13 * COORD_MAX as int);
                lemma_fmul_bound(val - d, vec_v@.x, 25 * COORD_MAX as int, DIR_MAX as int);
                lemma_fmul_bound(val - d, vec_v@.y, 25 * COORD_MAX as int, DIR_MAX as int);
                lemma_fmul_bound(val - d, vec_v@.z, 25 * COORD_MAX as int, DIR_MAX as int);
            }
            let point_p = point_e.on_half_line(vec_v, val - d);
            Some(point_p)
        }
    }

    /// The outward unit-scale normal at a surface point; meaningful when
    /// `point` lies on the sphere, defined for any in-range point.
    pub fn get_normal(&self, point: &Point3D) -> (r: Vec3D)
        requires
            self.wf(),
            in_range(point@, HIT_MAX as int),
        ensures
            r@ == normal_spec(self.center@, self.radius as int, point@),
            in_range(r@, (HIT_MAX as int + COORD_MAX as int) * (SCALE as int)),
    {
        proof {
            lemma_fdiv_bound(
                point@.x - self.center@.x,
                self.radius as int,
                HIT_MAX as int + COORD_MAX as int,
            );
            lemma_fdiv_bound(
                point@.y - self.center@.y,
                self.radius as int,
                HIT_MAX as int + COORD_MAX as int,
            );
            lemma_fdiv_bound(
                point@.z - self.center@.z,
                self.radius as int,
                HIT_MAX as int + COORD_MAX as int,
            );
        }
        let b = Vec3D::between(&self.center, point);
        Vec3D::new(fdiv(b.x(), self.radius), fdiv(b.y(), self.radius), fdiv(b.z(), self.radius))
    }
}

} // verus!
