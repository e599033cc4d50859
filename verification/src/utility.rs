//! Angle conversions between degrees and radians on the fixed-point
//! scale.

use vstd::prelude::*;
use crate::fixed::{fdiv, fdiv_spec, fits_i64, fmul, fmul_spec, SCALE};

verus! {

/// The circle constant pi on the fixed-point scale.
pub const PI_FX: i64 = 205887;

/// Degrees to radians: `pi / 180 * deg`, both steps in fixed point.
pub open spec fn deg_2_rad_spec(deg: int) -> int {
    fmul_spec(fdiv_spec(PI_FX as int, 180 * (SCALE as int)), deg)
}

/// Radians to degrees: `rad * 180 / pi`, both steps in fixed point.
pub open spec fn rad_2_deg_spec(rad: int) -> int {
    fdiv_spec(fmul_spec(rad as int, 180 * (SCALE as int)), PI_FX as int)
}

pub fn deg_2_rad(deg: i64) -> (r: i64)
    requires
        fits_i64(deg_2_rad_spec(deg as int)),
    ensures
        r as int == deg_2_rad_spec(deg as int),
{
    fmul(fdiv(PI_FX, 180 * SCALE), deg)
}

pub fn rad_2_deg(rad: i64) -> (r: i64)
    requires
        fits_i64(fmul_spec(rad as int, 180 * (SCALE as int))),
        fits_i64(rad_2_deg_spec(rad as int)),
    ensures
        r as int == rad_2_deg_spec(rad as int),
{
    fdiv(fmul(rad, 180 * SCALE), PI_FX)
}

} // verus!
