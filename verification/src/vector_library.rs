//! 3-D vectors and points over fixed-point coordinates. A `Vec3D` is a
//! free direction or displacement, a `Point3D` a location; both are
//! modelled by `V3`, a triple of unbounded integers on the fixed-point
//! scale. Every operation returns a new value and its contract states
//! the exact fixed-point result.

use vstd::prelude::*;
use vstd::arithmetic::div_mod::{
    lemma_div_multiples_vanish, lemma_div_pos_is_pos, lemma_fundamental_div_mod,
};
use crate::fixed::{
    fdiv, fdiv_spec, fits_i64, fmul, fmul_spec, fsqrt, fsqrt_spec, is_isqrt, lemma_div_trunc_le,
    lemma_fmul_bound, lemma_isqrt_exists, DIR_MAX, HALF_SCALE, SCALE,
};

verus! {

/// Mathematical model of a vector or point: its three fixed-point
/// coordinates as unbounded integers.
pub struct V3 {
    pub x: int,
    pub y: int,
    pub z: int,
}

/// Every component lies within magnitude `m`.
pub open spec fn in_range(v: V3, m: int) -> bool {
    -m <= v.x <= m && -m <= v.y <= m && -m <= v.z <= m
}

/// Fixed-point dot product: each coordinate product is truncated
/// separately, then the three terms are summed.
pub open spec fn dot_spec(a: V3, b: V3) -> int {
    fmul_spec(a.x, b.x) + fmul_spec(a.y, b.y) + fmul_spec(a.z, b.z)
}

/// Every intermediate of the dot product fits the representation.
pub open spec fn dot_fits(a: V3, b: V3) -> bool {
    &&& fits_i64(fmul_spec(a.x, b.x))
    &&& fits_i64(fmul_spec(a.y, b.y))
    &&& fits_i64(fmul_spec(a.z, b.z))
    &&& fits_i64(fmul_spec(a.x, b.x) + fmul_spec(a.y, b.y))
    &&& fits_i64(dot_spec(a, b))
}

/// Length of a vector: the fixed-point square root of its dot square.
pub open spec fn len_spec(v: V3) -> int {
    fsqrt_spec(dot_spec(v, v))
}

pub open spec fn scale_spec(v: V3, k: int) -> V3 {
    V3 { x: fmul_spec(k, v.x), y: fmul_spec(k, v.y), z: fmul_spec(k, v.z) }
}

pub open spec fn plus_spec(a: V3, b: V3) -> V3 {
    V3 { x: a.x + b.x, y: a.y + b.y, z: a.z + b.z }
}

pub open spec fn minus_spec(a: V3, b: V3) -> V3 {
    V3 { x: a.x - b.x, y: a.y - b.y, z: a.z - b.z }
}

/// The displacement that carries `p1` to `p2`.
pub open spec fn between_spec(p1: V3, p2: V3) -> V3 {
    minus_spec(p2, p1)
}

/// The vector divided, component by component, by its own length.
pub open spec fn unit_spec(v: V3) -> V3 {
    V3 {
        x: fdiv_spec(v.x, len_spec(v)),
        y: fdiv_spec(v.y, len_spec(v)),
        z: fdiv_spec(v.z, len_spec(v)),
    }
}

/// The point reached from `p` after travelling `t` along `dir`.
pub open spec fn on_half_line_spec(p: V3, dir: V3, t: int) -> V3 {
    plus_spec(p, scale_spec(dir, t))
}

/// Both components of a subtraction fit the representation.
pub open spec fn sub_fits(a: V3, b: V3) -> bool {
    &&& fits_i64(-b.x) && fits_i64(-b.y) && fits_i64(-b.z)
    &&& fits_i64(a.x - b.x) && fits_i64(a.y - b.y) && fits_i64(a.z - b.z)
}

pub open spec fn add_fits(a: V3, b: V3) -> bool {
    fits_i64(a.x + b.x) && fits_i64(a.y + b.y) && fits_i64(a.z + b.z)
}

/// Scaling by the fixed-point one (or its negation) is exact.
pub proof fn lemma_fmul_one(x: int)
    ensures
        fmul_spec(SCALE as int, x) == x,
        fmul_spec(-(SCALE as int), x) == -x,
{
    if x >= 0 {
        lemma_div_multiples_vanish(x, SCALE as int);
        assert((SCALE as int) * x == x * (SCALE as int)) by (nonlinear_arith);
        assert(-((-(SCALE as int)) * x) == (SCALE as int) * x) by (nonlinear_arith);
    } else {
        lemma_div_multiples_vanish(-x, SCALE as int);
        assert(-((SCALE as int) * x) == (SCALE as int) * (-x)) by (nonlinear_arith);
        assert((-(SCALE as int)) * x == (SCALE as int) * (-x)) by (nonlinear_arith);
    }
}

/// A square is never negative, so a dot product of a vector with itself
/// is never negative.
pub proof fn lemma_dot_self_nonneg(v: V3)
    ensures
        fmul_spec(v.x, v.x) >= 0,
        fmul_spec(v.y, v.y) >= 0,
        fmul_spec(v.z, v.z) >= 0,
        dot_spec(v, v) >= 0,
{
    assert(v.x * v.x >= 0 && v.y * v.y >= 0 && v.z * v.z >= 0) by (nonlinear_arith);
    lemma_div_pos_is_pos(v.x * v.x, SCALE as int);
    lemma_div_pos_is_pos(v.y * v.y, SCALE as int);
    lemma_div_pos_is_pos(v.z * v.z, SCALE as int);
}

/// Bounded vectors have a bounded dot product, term by term.
pub proof fn lemma_dot_bound(a: V3, b: V3, am: int, bm: int)
    requires
        in_range(a, am),
        in_range(b, bm),
        0 <= am,
        0 <= bm,
        3 * ((am * bm) / (SCALE as int)) <= 0x7FFFFFFFFFFFFFFF,
    ensures
        dot_fits(a, b),
        -(3 * ((am * bm) / (SCALE as int))) <= dot_spec(a, b) <= 3 * ((am * bm) / (SCALE as int)),
{
    lemma_fmul_bound(a.x, b.x, am, bm);
    lemma_fmul_bound(a.y, b.y, am, bm);
    lemma_fmul_bound(a.z, b.z, am, bm);
    assert((am * bm) / (SCALE as int) >= 0) by {
        assert(am * bm >= 0) by (nonlinear_arith)
            requires
                0 <= am,
                0 <= bm,
        ;
        lemma_div_pos_is_pos(am * bm, SCALE as int);
    }
}

/// Dividing a bounded value by a positive divisor keeps it bounded.
pub proof fn lemma_fdiv_bound(a: int, b: int, m: int)
    requires
        1 <= b,
        -m <= a <= m,
        0 <= m,
    ensures
        -(m * (SCALE as int)) <= fdiv_spec(a, b) <= m * (SCALE as int),
        fits_i64(fdiv_spec(a, b)) || m * (SCALE as int) > 0x7FFFFFFFFFFFFFFF,
{
    assert(-(m * (SCALE as int)) <= a * (SCALE as int) <= m * (SCALE as int)) by (nonlinear_arith)
        requires
            -m <= a <= m,
    ;
    lemma_div_trunc_le(a * (SCALE as int), b, m * (SCALE as int));
}

/// A vector no shorter than half a unit has near-unit normalization:
/// each component of `unit_spec` stays within two units.
pub proof fn lemma_unit_bound(v: V3)
    requires
        len_spec(v) >= HALF_SCALE,
    ensures
        in_range(unit_spec(v), DIR_MAX as int),
        fits_i64(unit_spec(v).x),
        fits_i64(unit_spec(v).y),
        fits_i64(unit_spec(v).z),
{
    lemma_unit_bound_component(v.x, v, len_spec(v));
    lemma_unit_bound_component(v.y, v, len_spec(v));
    lemma_unit_bound_component(v.z, v, len_spec(v));
}

/// One component of the normalization bound: if the whole vector has
/// length `l >= HALF_SCALE`, a coordinate `x` cannot exceed `2 * l`, so
/// `x * SCALE / l` stays within `2 * SCALE`.
proof fn lemma_unit_bound_component(x: int, v: V3, l: int)
    requires
        l == len_spec(v),
        l >= HALF_SCALE,
        x == v.x || x == v.y || x == v.z,
    ensures
        -(DIR_MAX as int) <= fdiv_spec(x, l) <= DIR_MAX as int,
{
    let d = dot_spec(v, v);
    lemma_dot_self_nonneg(v);
    lemma_isqrt_exists(d * (SCALE as int));
    assert(is_isqrt(d * (SCALE as int), l));
    // The dot square dominates the square of each coordinate.
    assert(d >= fmul_spec(x, x));
    // `fmul_spec(x, x) * SCALE` recovers `x * x` up to one unit of slack.
    assert(fmul_spec(x, x) * (SCALE as int) > x * x - (SCALE as int)) by {
        lemma_fundamental_div_mod(x * x, SCALE as int);
        assert(x * x >= 0) by (nonlinear_arith);
    }
    assert(d * (SCALE as int) >= fmul_spec(x, x) * (SCALE as int)) by (nonlinear_arith)
        requires
            d >= fmul_spec(x, x),
            SCALE == 65536,
    ;
    // So `(l + 1)^2 > x^2 - SCALE`, which forces `|x| <= 2 * l`.
    assert(-(2 * l) <= x <= 2 * l) by (nonlinear_arith)
        requires
            (l + 1) * (l + 1) > x * x - (SCALE as int),
            l >= HALF_SCALE,
            HALF_SCALE == 32768,
            SCALE == 65536,
    ;
    assert(-(2 * l) * (SCALE as int) <= x * (SCALE as int) <= (2 * l) * (SCALE as int))
        by (nonlinear_arith)
        requires
            -(2 * l) <= x <= 2 * l,
    ;
    lemma_div_trunc_le(x * (SCALE as int), l, (2 * l) * (SCALE as int));
    assert(((2 * l) * (SCALE as int)) / l == 2 * (SCALE as int)) by {
        assert((2 * l) * (SCALE as int) == l * (2 * (SCALE as int))) by (nonlinear_arith);
        lemma_div_multiples_vanish(2 * (SCALE as int), l);
    }
}

/// A free 3-D direction or displacement.
#[derive(Clone, Copy, PartialEq, Eq, Structural, Debug)]
pub struct Vec3D {
    x: i64,
    y: i64,
    z: i64,
}

/// A 3-D location, kept apart from `Vec3D`: points combine with vectors,
/// not freely with each other.
#[derive(Clone, Copy, PartialEq, Eq, Structural, Debug)]
pub struct Point3D {
    x: i64,
    y: i64,
    z: i64,
}

impl View for Vec3D {
    type V = V3;

    closed spec fn view(&self) -> V3 {
        V3 { x: self.x as int, y: self.y as int, z: self.z as int }
    }
}

impl View for Point3D {
    type V = V3;

    closed spec fn view(&self) -> V3 {
        V3 { x: self.x as int, y: self.y as int, z: self.z as int }
    }
}

impl Vec3D {
    pub fn x(&self) -> (r: i64)
        ensures
            r == self@.x,
    {
        self.x
    }

    pub fn y(&self) -> (r: i64)
        ensures
            r == self@.y,
    {
        self.y
    }

    pub fn z(&self) -> (r: i64)
        ensures
            r == self@.z,
    {
        self.z
    }

    pub fn new(x: i64, y: i64, z: i64) -> (r: Vec3D)
        ensures
            r@ == (V3 { x: x as int, y: y as int, z: z as int }),
    {
        Vec3D { x, y, z }
    }

    pub fn dot(&self, other: &Vec3D) -> (r: i64)
        requires
            dot_fits(self@, other@),
        ensures
            r as int == dot_spec(self@, other@),
    {
        fmul(self.x, other.x) + fmul(self.y, other.y) + fmul(self.z, other.z)
    }

    pub fn len(&self) -> (r: i64)
        requires
            dot_fits(self@, self@),
        ensures
            r as int == len_spec(self@),
            is_isqrt(dot_spec(self@, self@) * (SCALE as int), r as int),
            r >= 0,
    {
        proof {
            lemma_dot_self_nonneg(self@);
        }
        let d = self.dot(self);
        fsqrt(d)
    }

    pub fn scale(&self, k: i64) -> (r: Vec3D)
        requires
            fits_i64(fmul_spec(k as int, self@.x)),
            fits_i64(fmul_spec(k as int, self@.y)),
            fits_i64(fmul_spec(k as int, self@.z)),
        ensures
            r@ == scale_spec(self@, k as int),
    {
        Vec3D::new(fmul(k, self.x), fmul(k, self.y), fmul(k, self.z))
    }

    pub fn plus(&self, other: &Vec3D) -> (r: Vec3D)
        requires
            add_fits(self@, other@),
        ensures
            r@ == plus_spec(self@, other@),
    {
        Vec3D::new(self.x + other.x, self.y + other.y, self.z + other.z)
    }

    pub fn minus(&self, other: &Vec3D) -> (r: Vec3D)
        requires
            sub_fits(self@, other@),
        ensures
            r@ == minus_spec(self@, other@),
    {
        proof {
            lemma_fmul_one(other@.x);
            lemma_fmul_one(other@.y);
            lemma_fmul_one(other@.z);
        }
        self.plus(&other.scale(-SCALE))
    }

    pub fn unit(&self) -> (r: Vec3D)
        requires
            dot_fits(self@, self@),
            len_spec(self@) >= HALF_SCALE,
        ensures
            r@ == unit_spec(self@),
            in_range(r@, DIR_MAX as int),
    {
        proof {
            lemma_unit_bound(self@);
        }
        let l = self.len();
        Vec3D::new(fdiv(self.x, l), fdiv(self.y, l), fdiv(self.z, l))
    }

    pub fn from(p: &Point3D) -> (r: Vec3D)
        ensures
            r@ == p@,
    {
        Vec3D::new(p.x, p.y, p.z)
    }

    pub fn between(p1: &Point3D, p2: &Point3D) -> (r: Vec3D)
        requires
            sub_fits(p2@, p1@),
        ensures
            r@ == between_spec(p1@, p2@),
    {
        let v1 = Vec3D::from(p1);
        let v2 = Vec3D::from(p2);
        v2.minus(&v1)
    }
}

impl Point3D {
    pub fn x(&self) -> (r: i64)
        ensures
            r == self@.x,
    {
        self.x
    }

    pub fn y(&self) -> (r: i64)
        ensures
            r == self@.y,
    {
        self.y
    }

    pub fn z(&self) -> (r: i64)
        ensures
            r == self@.z,
    {
        self.z
    }

    pub fn new(x: i64, y: i64, z: i64) -> (r: Point3D)
        ensures
            r@ == (V3 { x: x as int, y: y as int, z: z as int }),
    {
        Point3D { x, y, z }
    }

    pub fn add(&self, other: &Point3D) -> (r: Point3D)
        requires
            add_fits(self@, other@),
        ensures
            r@ == plus_spec(self@, other@),
    {
        Point3D::new(self.x + other.x, self.y + other.y, self.z + other.z)
    }

    pub fn subtract(&self, other: &Point3D) -> (r: Point3D)
        requires
            fits_i64(self@.x - other@.x),
            fits_i64(self@.y - other@.y),
            fits_i64(self@.z - other@.z),
        ensures
            r@ == minus_spec(self@, other@),
    {
        Point3D::new(self.x - other.x, self.y - other.y, self.z - other.z)
    }

    pub fn from(v: &Vec3D) -> (r: Point3D)
        ensures
            r@ == v@,
    {
        Point3D::new(v.x, v.y, v.z)
    }

    pub fn on_half_line(&self, direction: &Vec3D, length: i64) -> (r: Point3D)
        requires
            fits_i64(fmul_spec(length as int, direction@.x)),
            fits_i64(fmul_spec(length as int, direction@.y)),
            fits_i64(fmul_spec(length as int, direction@.z)),
            add_fits(self@, scale_spec(direction@, length as int)),
        ensures
            r@ == on_half_line_spec(self@, direction@, length as int),
    {
        let p = Point3D::from(&direction.scale(length));
        self.add(&p)
    }
}

} // verus!
