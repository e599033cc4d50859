//! The single point light of a scene: a position and a scalar intensity.

use vstd::prelude::*;
use crate::fixed::COORD_MAX;
use crate::vector_library::{in_range, Point3D, V3};

verus! {

/// A point light: no color, and no attenuation model beyond the
/// inverse-square falloff applied at shading time.
#[derive(Clone, Copy, PartialEq, Eq, Structural, Debug)]
pub struct Light {
    pub center: Point3D,
    pub intensity: i64,
}

impl Light {
    /// The light stays within the coordinate range and shines with a
    /// positive intensity.
    pub open spec fn wf(&self) -> bool {
        &&& in_range(self.center@, COORD_MAX as int)
        &&& 1 <= self.intensity <= COORD_MAX
    }

    pub fn new(cx: i64, cy: i64, cz: i64, intensity: i64) -> (r: Light)
        ensures
            r.center@ == (V3 { x: cx as int, y: cy as int, z: cz as int }),
            r.intensity == intensity,
    {
        Light { center: Point3D::new(cx, cy, cz), intensity }
    }
}

} // verus!
