//! A ray: an origin point and a near-unit direction, built only by
//! normalizing the displacement from the origin to a target point.

use vstd::prelude::*;
use crate::fixed::{lemma_fmul_bound, COORD_MAX, DIR_MAX, HALF_SCALE, HIT_MAX, T_MAX};
use crate::vector_library::{
    between_spec, in_range, lemma_dot_bound, len_spec, on_half_line_spec, unit_spec, Point3D,
    Vec3D, V3,
};

verus! {

/// Mathematical model of a ray: its origin and direction as integer
/// triples on the fixed-point scale.
pub struct RayModel {
    pub origin: V3,
    pub direction: V3,
}

pub struct Ray {
    origin: Point3D,
    direction: Vec3D,
}

impl View for Ray {
    type V = RayModel;

    closed spec fn view(&self) -> RayModel {
        RayModel { origin: self.origin@, direction: self.direction@ }
    }
}

impl Ray {
    /// The origin lies in the coordinate range and the direction is
    /// normalized, so each of its components stays within two units.
    pub open spec fn wf(&self) -> bool {
        &&& in_range(self@.origin, COORD_MAX as int)
        &&& in_range(self@.direction, DIR_MAX as int)
    }

    /// Builds the ray from `origin` toward `target`. The separation of
    /// the two points must reach half a unit, the shortest length the
    /// fixed-point normalization accepts.
    pub fn new(origin: Point3D, target: &Point3D) -> (r: Ray)
        requires
            in_range(origin@, COORD_MAX as int),
            in_range(target@, COORD_MAX as int),
            len_spec(between_spec(origin@, target@)) >= HALF_SCALE,
        ensures
            r@.origin == origin@,
            r@.direction == unit_spec(between_spec(origin@, target@)),
            r.wf(),
    {
        proof {
            let b = between_spec(origin@, target@);
            lemma_dot_bound(b, b, 2 * COORD_MAX as int, 2 * COORD_MAX as int);
        }
        let direction = Vec3D::between(&origin, &target).unit();
        Ray { origin, direction }
    }

    pub fn origin(&self) -> (r: &Point3D)
        ensures
            r@ == self@.origin,
    {
        &self.origin
    }

    pub fn direction(&self) -> (r: &Vec3D)
        ensures
            r@ == self@.direction,
    {
        &self.direction
    }

    /// The point `distance` along the ray from its origin.
    pub fn point_at(&self, distance: i64) -> (r: Point3D)
        requires
            self.wf(),
            -T_MAX <= distance <= T_MAX,
        ensures
            r@ == on_half_line_spec(self@.origin, self@.direction, distance as int),
            in_range(r@, HIT_MAX as int),
    {
        proof {
            lemma_fmul_bound(
                distance as int,
                self@.direction.x,
                T_MAX as int,
                DIR_MAX as int,
            );
            lemma_fmul_bound(
                distance as int,
                self@.direction.y,
                T_MAX as int,
                DIR_MAX as int,
            );
            lemma_fmul_bound(
                distance as int,
                self@.direction.z,
                T_MAX as int,
                DIR_MAX as int,
            );
        }
        self.origin().add(&Point3D::from(&self.direction.scale(distance)))
    }
}

} // verus!
