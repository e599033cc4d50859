//! The rendering pipeline: image settings, the scene, camera projection,
//! nearest-hit resolution across the scene's spheres, Lambertian shading
//! with an ambient/diffuse blend, and the row-major render loop.

use vstd::prelude::*;
use vstd::arithmetic::div_mod::{
    lemma_div_is_ordered, lemma_div_is_ordered_by_denominator, lemma_div_multiples_vanish,
    lemma_div_pos_is_pos, lemma_fundamental_div_mod_converse,
};
use vstd::arithmetic::mul::lemma_mul_inequality;
use crate::fixed::{
    div_trunc, fdiv, fdiv_spec, fits_i64, fmul, fmul_spec, lemma_div_trunc_le,
    lemma_div_trunc_monotone, lemma_fmul_bound, lemma_isqrt_ge, lemma_isqrt_lt, COORD_MAX,
    DIR_MAX, HALF_SCALE, HIT_MAX, SCALE, T_MAX,
};
use crate::light::Light;
use crate::ppm::Color;
use crate::ray::{Ray, RayModel};
use crate::sphere3d::{intersect_spec, normal_spec, Sphere3D};
use crate::utility::{deg_2_rad, deg_2_rad_spec, PI_FX};
use crate::vector_library::{
    between_spec, dot_spec, in_range, lemma_dot_bound, lemma_dot_self_nonneg, lemma_fdiv_bound,
    lemma_fmul_one, len_spec, on_half_line_spec, unit_spec, Point3D, Vec3D, V3,
};

verus! {

/// Image and shading settings, immutable for the whole render.
/// `fov` is the full field of view in degrees on the fixed-point scale;
/// `tan_half_fov` is the tangent of half that angle, supplied by the
/// embedding application, since trigonometry has no place in the
/// fixed-point core.
pub struct Settings {
    pub width: u16,
    pub height: u16,
    pub fov: i64,
    pub ambient_light: i64,
    pub tan_half_fov: i64,
}

impl Settings {
    /// The bounds the pipeline's fixed-point arithmetic needs: positive
    /// image dimensions, an aspect ratio of at most 256, an ambient
    /// coefficient in [0, 1], a nonnegative half-angle tangent of at
    /// most 16, and a plausible angle in degrees.
    pub open spec fn wf(&self) -> bool {
        &&& 0 < self.width
        &&& 0 < self.height
        &&& self.width <= 256 * (self.height as int)
        &&& 0 <= self.ambient_light <= SCALE
        &&& 0 <= self.tan_half_fov <= 16 * (SCALE as int)
        &&& 0 <= self.fov <= 360 * (SCALE as int)
    }

    /// Width over height, in fixed point.
    pub open spec fn aspect_ratio_spec(&self) -> int {
        fdiv_spec((self.width as int) * (SCALE as int), (self.height as int) * (SCALE as int))
    }

    fn aspect_ratio(&self) -> (r: i64)
        requires
            self.wf(),
        ensures
            r as int == self.aspect_ratio_spec(),
            0 <= r <= 256 * (SCALE as int),
    {
        let w: i64 = (self.width as i64) * SCALE;
        let h: i64 = (self.height as i64) * SCALE;
        proof {
            lemma_aspect_bound(self.width as int, self.height as int);
        }
        fdiv(w, h)
    }

    /// The field of view in radians.
    pub fn fov_rad(&self) -> (r: i64)
        requires
            self.wf(),
        ensures
            r as int == deg_2_rad_spec(self.fov as int),
    {
        proof {
            lemma_fundamental_div_mod_converse(205887int * 65536int, 180int * 65536int, 1143int, 9633792int);
            assert(fdiv_spec(PI_FX as int, 180 * (SCALE as int)) == 1143);
            lemma_fmul_bound(
                fdiv_spec(PI_FX as int, 180 * (SCALE as int)),
                self.fov as int,
                1144,
                360 * (SCALE as int),
            );
        }
        deg_2_rad(self.fov)
    }

    fn ambient_coefficient(&self) -> (r: i64)
        ensures
            r == self.ambient_light,
    {
        self.ambient_light
    }

    fn diffuse_coefficient(&self) -> (r: i64)
        requires
            self.wf(),
        ensures
            r as int == SCALE - self.ambient_light,
    {
        SCALE - self.ambient_light
    }
}

/// The aspect ratio of a well-formed image stays within [0, 256].
proof fn lemma_aspect_bound(w: int, h: int)
    requires
        0 < w,
        0 < h,
        w <= 256 * h,
    ensures
        0 <= fdiv_spec(w * (SCALE as int), h * (SCALE as int)) <= 256 * (SCALE as int),
{
    let s = SCALE as int;
    let n = (w * s) * s;
    assert(0 <= n) by (nonlinear_arith)
        requires
            n == (w * s) * s,
            0 < w,
            s == 65536,
    ;
    assert(n <= (h * s) * (256 * s)) by (nonlinear_arith)
        requires
            n == (w * s) * s,
            w <= 256 * h,
            0 < h,
            s == 65536,
    ;
    assert(0 < h * s) by (nonlinear_arith)
        requires
            0 < h,
            s == 65536,
    ;
    lemma_div_pos_is_pos(n, h * s);
    lemma_div_is_ordered(n, (h * s) * (256 * s), h * s);
    lemma_div_multiples_vanish(256 * s, h * s);
}

/// The scene: an ordered sequence of spheres and one point light. The
/// order matters only as the tie-break rule of nearest-hit resolution.
pub struct Scene {
    pub objects: Vec<Sphere3D>,
    pub light: Light,
}

impl Scene {
    pub open spec fn wf(&self) -> bool {
        &&& forall|i: int| 0 <= i < self.objects@.len() ==> (#[trigger] self.objects@[i]).wf()
        &&& self.light.wf()
    }
}

/// The camera-space point a pixel maps to: the pixel center is rescaled
/// to the unit square, mapped to [-1, 1] screen space with y flipped,
/// scaled by the half-angle tangent (and, on x, the aspect ratio), at a
/// fixed depth of -1; the eye sits at the origin looking down -z.
pub open spec fn camera_spec(x: int, y: int, width: int, height: int, tana: int) -> V3 {
    let s = SCALE as int;
    let ndc_x = fdiv_spec(x * s + HALF_SCALE, width * s);
    let ndc_y = fdiv_spec(y * s + HALF_SCALE, height * s);
    let screen_x = 2 * ndc_x - s;
    let screen_y = s - 2 * ndc_y;
    let aspect = fdiv_spec(width * s, height * s);
    V3 {
        x: fmul_spec(fmul_spec(screen_x, aspect), tana),
        y: fmul_spec(screen_y, tana),
        z: -s,
    }
}

/// A pixel center rescaled to the unit square lands in [0, 1].
proof fn lemma_ndc_bound(x: int, w: int)
    requires
        0 <= x < w,
    ensures
        0 <= fdiv_spec(x * (SCALE as int) + HALF_SCALE, w * (SCALE as int)) <= SCALE,
{
    let s = SCALE as int;
    let num = (x * s + HALF_SCALE) * s;
    assert(0 <= num) by (nonlinear_arith)
        requires
            num == (x * s + HALF_SCALE) * s,
            0 <= x,
            s == 65536,
            HALF_SCALE == 32768,
    ;
    assert(num <= (w * s) * s) by (nonlinear_arith)
        requires
            num == (x * s + HALF_SCALE) * s,
            x < w,
            s == 65536,
            HALF_SCALE == 32768,
    ;
    assert(0 < w * s) by (nonlinear_arith)
        requires
            0 < w,
            s == 65536,
    ;
    lemma_div_pos_is_pos(num, w * s);
    lemma_div_is_ordered(num, (w * s) * s, w * s);
    lemma_div_multiples_vanish(s, w * s);
}

/// Maps a pixel to its camera-space point.
pub fn image_coord_to_camera_space(x: u16, y: u16, settings: &Settings) -> (r: Point3D)
    requires
        settings.wf(),
        x < settings.width,
        y < settings.height,
    ensures
        r@ == camera_spec(
            x as int,
            y as int,
            settings.width as int,
            settings.height as int,
            settings.tan_half_fov as int,
        ),
        in_range(r@, COORD_MAX as int),
        r@.z == -(SCALE as int),
    {
    let w: i64 = (settings.width as i64) * SCALE;
    let h: i64 = (settings.height as i64) * SCALE;
    proof {
        lemma_ndc_bound(x as int, settings.width as int);
        lemma_ndc_bound(y as int, settings.height as int);
    }
    let p_ndc_x = fdiv(x as i64 * SCALE + HALF_SCALE, w);
    let p_ndc_y = fdiv(y as i64 * SCALE + HALF_SCALE, h);

    let p_screen_x = 2 * p_ndc_x - SCALE;
    let p_screen_y = SCALE - 2 * p_ndc_y;

    let aspect_ratio = settings.aspect_ratio();
    let tana = settings.tan_half_fov;

    proof {
        lemma_fmul_bound(p_screen_x as int, aspect_ratio as int, SCALE as int, 256 * (SCALE as int));
        lemma_fmul_bound(
            fmul_spec(p_screen_x as int, aspect_ratio as int),
            tana as int,
            256 * (SCALE as int),
            16 * (SCALE as int),
        );
        lemma_fmul_bound(p_screen_y as int, tana as int, SCALE as int, 16 * (SCALE as int));
    }
    let p_camera_x = fmul(fmul(p_screen_x, aspect_ratio), tana);
    let p_camera_y = fmul(p_screen_y, tana);

    Point3D::new(p_camera_x, p_camera_y, -SCALE)
}

/// The distance from the ray origin at which the ray first meets the
/// sphere, if it does.
pub open spec fn hit_dist(s: Sphere3D, ray: RayModel) -> Option<int> {
    match intersect_spec(s.center@, s.radius as int, ray.origin, ray.direction) {
        Some(p) => Some(len_spec(between_spec(ray.origin, p))),
        None => None,
    }
}

/// Nearest hit among the first `n` spheres, first-encountered-wins on
/// ties: a later sphere replaces the current best only at a strictly
/// smaller distance.
pub open spec fn nearest_upto(objects: Seq<Sphere3D>, ray: RayModel, n: int) -> Option<(int, int)>
    decreases n,
{
    if n <= 0 {
        None
    } else {
        let prev = nearest_upto(objects, ray, n - 1);
        match hit_dist(objects[n - 1], ray) {
            Some(d) => match prev {
                Some((i, nd)) => if d < nd {
                    Some((n - 1, d))
                } else {
                    Some((i, nd))
                },
                None => Some((n - 1, d)),
            },
            None => prev,
        }
    }
}

/// The index and distance of the nearest hit over the whole sequence.
pub open spec fn nearest_spec(objects: Seq<Sphere3D>, ray: RayModel) -> Option<(int, int)> {
    nearest_upto(objects, ray, objects.len() as int)
}

/// The executable result agrees with the specified one.
pub open spec fn nearest_matches(r: Option<(usize, i64)>, s: Option<(int, int)>) -> bool {
    match r {
        None => s is None,
        Some((i, d)) => s == Some((i as int, d as int)),
    }
}

/// Intersects the ray with every sphere of the scene and keeps the hit
/// nearest to the ray origin. When two spheres are hit at equal
/// distances, the one earlier in storage order wins: the current best
/// is replaced only by a strictly smaller distance.
pub fn nearest_intersection(ray: &Ray, scene: &Scene) -> (r: Option<(usize, i64)>)
    requires
        ray.wf(),
        scene.wf(),
    ensures
        nearest_matches(r, nearest_spec(scene.objects@, ray@)),
        match r {
            None => forall|j: int|
                0 <= j < scene.objects@.len() ==> hit_dist(#[trigger] scene.objects@[j], ray@)
                    is None,
            Some((i, dist)) => {
                &&& (i as int) < scene.objects@.len()
                &&& hit_dist(scene.objects@[i as int], ray@) == Some(dist as int)
                &&& 0 <= dist <= T_MAX
                &&& forall|j: int|
                    0 <= j < scene.objects@.len() && hit_dist(
                        #[trigger] scene.objects@[j],
                        ray@,
                    ) is Some ==> hit_dist(scene.objects@[j], ray@).unwrap() >= dist
                &&& forall|j: int|
                    0 <= j < i as int && hit_dist(#[trigger] scene.objects@[j], ray@) is Some
                        ==> hit_dist(scene.objects@[j], ray@).unwrap() > dist
            },
        },
{
    let mut nearest: Option<(usize, i64)> = None;
    let mut idx: usize = 0;
    let objects_len = scene.objects.len();
    while idx < objects_len
        invariant
            objects_len == scene.objects@.len(),
            idx <= objects_len,
            ray.wf(),
            scene.wf(),
            nearest_matches(nearest, nearest_upto(scene.objects@, ray@, idx as int)),
            match nearest {
                None => forall|j: int|
                    0 <= j < idx ==> hit_dist(#[trigger] scene.objects@[j], ray@) is None,
                Some((i, dist)) => {
                    &&& (i as int) < idx
                    &&& hit_dist(scene.objects@[i as int], ray@) == Some(dist as int)
                    &&& 0 <= dist <= T_MAX
                    &&& forall|j: int|
                        0 <= j < idx && hit_dist(#[trigger] scene.objects@[j], ray@) is Some
                            ==> hit_dist(scene.objects@[j], ray@).unwrap() >= dist
                    &&& forall|j: int|
                        0 <= j < i as int && hit_dist(#[trigger] scene.objects@[j], ray@) is Some
                            ==> hit_dist(scene.objects@[j], ray@).unwrap() > dist
                },
            },
        decreases objects_len - idx,
    {
        let object = &scene.objects[idx];
        let intersection = object.intersect(ray);
        match intersection {
            Some(p) => {
                proof {
                    lemma_dot_bound(
                        between_spec(ray@.origin, p@),
                        between_spec(ray@.origin, p@),
                        52 * COORD_MAX as int,
                        52 * COORD_MAX as int,
                    );
                    lemma_dot_self_nonneg(between_spec(ray@.origin, p@));
                }
                let b = Vec3D::between(ray.origin(), &p);
                let dist = b.len();
                proof {
                    lemma_isqrt_lt(
                        dot_spec(b@, b@) * (SCALE as int),
                        91 * COORD_MAX as int,
                    );
                }
                nearest = match nearest {
                    Some((ni, nd)) => if dist < nd {
                        Some((idx, dist))
                    } else {
                        Some((ni, nd))
                    },
                    None => Some((idx, dist)),
                };
            },
            None => {},
        }
        idx = idx + 1;
    }
    nearest
}

/// The reciprocal of pi on the fixed-point scale.
pub const INV_PI_FX: i64 = 20861;

pub open spec fn clamp_spec(v: int, lo: int, hi: int) -> int {
    if v < lo {
        lo
    } else if v > hi {
        hi
    } else {
        v
    }
}

/// The diffuse shading value of a hit: Lambertian reflectance
/// `(1/pi) * cos * intensity / distance^2`, clamped to `[0, 255]` on the
/// fixed-point scale. A light within half a unit of the surface point
/// would overflow the inverse-square falloff; such a hit takes the
/// clamp's upper end, the limit of the formula as the distance vanishes.
pub open spec fn light_value_spec(cos_angle: int, intensity: int, dist_light: int) -> int {
    if dist_light < HALF_SCALE {
        255 * (SCALE as int)
    } else {
        clamp_spec(
            fmul_spec(
                fmul_spec(INV_PI_FX as int, cos_angle),
                fdiv_spec(intensity, fmul_spec(dist_light, dist_light)),
            ),
            0,
            255 * (SCALE as int),
        )
    }
}

/// Computes the diffuse shading value.
fn light_value(cos_angle: i64, intensity: i64, dist_light: i64) -> (r: i64)
    requires
        0 <= cos_angle <= 0x200000000000000,
        1 <= intensity <= COORD_MAX,
        0 <= dist_light <= 549755813888,
    ensures
        r as int == light_value_spec(cos_angle as int, intensity as int, dist_light as int),
        0 <= r <= 255 * SCALE,
{
    if dist_light < HALF_SCALE {
        return 255 * SCALE;
    }
    proof {
        lemma_fmul_bound(dist_light as int, dist_light as int, 549755813888, 549755813888);
        assert((dist_light as int) * (dist_light as int) >= 32768 * 32768) by (nonlinear_arith)
            requires
                dist_light >= 32768,
        ;
        lemma_div_is_ordered(
            32768int * 32768int,
            (dist_light as int) * (dist_light as int),
            SCALE as int,
        );
    }
    let d2 = fmul(dist_light, dist_light);
    proof {
        lemma_fdiv_bound(intensity as int, d2 as int, COORD_MAX as int);
        lemma_div_pos_is_pos((intensity as int) * (SCALE as int), d2 as int);
    }
    let falloff = fdiv(intensity, d2);
    proof {
        assert(0 <= (INV_PI_FX as int) * (cos_angle as int) <= 20861int * 0x200000000000000int)
            by (nonlinear_arith)
            requires
                INV_PI_FX == 20861,
                0 <= cos_angle <= 0x200000000000000,
        ;
        lemma_div_trunc_le(
            (INV_PI_FX as int) * (cos_angle as int),
            SCALE as int,
            20861int * 0x200000000000000int,
        );
        lemma_div_pos_is_pos((INV_PI_FX as int) * (cos_angle as int), SCALE as int);
    }
    let p1: i128 = (INV_PI_FX as i128) * (cos_angle as i128) / (SCALE as i128);
    proof {
        assert(0 <= (p1 as int) * (falloff as int) <= 0x40000000000000000000000000int)
            by (nonlinear_arith)
            requires
                0 <= p1 <= 0x100000000000000,
                0 <= falloff <= 0x400000000000,
        ;
        lemma_div_trunc_le(
            (p1 as int) * (falloff as int),
            SCALE as int,
            0x40000000000000000000000000int,
        );
        lemma_div_pos_is_pos((p1 as int) * (falloff as int), SCALE as int);
    }
    let p2: i128 = p1 * (falloff as i128) / (SCALE as i128);
    if p2 > 255 * (SCALE as i128) {
        255 * SCALE
    } else {
        p2 as i64
    }
}

/// The diffuse shading value always lands in the channel span.
pub proof fn lemma_light_value_range(cos_angle: int, intensity: int, dist_light: int)
    ensures
        0 <= light_value_spec(cos_angle, intensity, dist_light) <= 255 * SCALE,
{
}

/// Raising the light intensity, with the cosine and the distance fixed,
/// never lowers the diffuse shading value.
pub proof fn lemma_light_value_monotone_intensity(
    cos_angle: int,
    i1: int,
    i2: int,
    dist_light: int,
)
    requires
        0 <= cos_angle,
        0 <= i1 <= i2,
    ensures
        light_value_spec(cos_angle, i1, dist_light) <= light_value_spec(cos_angle, i2, dist_light),
{
    if dist_light >= HALF_SCALE {
        let s = SCALE as int;
        let d2 = fmul_spec(dist_light, dist_light);
        assert(dist_light * dist_light >= 32768int * 32768int) by (nonlinear_arith)
            requires
                dist_light >= 32768,
        ;
        lemma_div_is_ordered(32768int * 32768int, dist_light * dist_light, s);
        assert(d2 >= 1);
        assert(i1 * s <= i2 * s) by (nonlinear_arith)
            requires
                i1 <= i2,
                s == 65536,
        ;
        lemma_div_trunc_monotone(i1 * s, i2 * s, d2);
        lemma_div_pos_is_pos(i1 * s, d2);
        let f1 = fdiv_spec(i1, d2);
        let f2 = fdiv_spec(i2, d2);
        let q = fmul_spec(INV_PI_FX as int, cos_angle);
        lemma_div_pos_is_pos((INV_PI_FX as int) * cos_angle, s);
        assert(q * f1 <= q * f2) by (nonlinear_arith)
            requires
                0 <= q,
                0 <= f1 <= f2,
        ;
        lemma_div_trunc_monotone(q * f1, q * f2, s);
        lemma_div_pos_is_pos(q * f1, s);
    }
}

/// Moving the light farther away, with the cosine and the intensity
/// fixed, never raises the diffuse shading value: the inverse-square
/// falloff, non-strict under fixed-point truncation.
pub proof fn lemma_light_value_antitone_distance(cos_angle: int, intensity: int, d1: int, d2: int)
    requires
        0 <= cos_angle,
        0 <= intensity,
        HALF_SCALE <= d1 <= d2,
    ensures
        light_value_spec(cos_angle, intensity, d1) >= light_value_spec(cos_angle, intensity, d2),
{
    let s = SCALE as int;
    let m1 = fmul_spec(d1, d1);
    let m2 = fmul_spec(d2, d2);
    assert(32768int * 32768int <= d1 * d1 <= d2 * d2) by (nonlinear_arith)
        requires
            32768 <= d1 <= d2,
    ;
    lemma_div_is_ordered(32768int * 32768int, d1 * d1, s);
    lemma_div_is_ordered(d1 * d1, d2 * d2, s);
    assert(1 <= m1 <= m2);
    lemma_div_is_ordered_by_denominator(intensity * s, m1, m2);
    lemma_div_pos_is_pos(intensity * s, m2);
    let f1 = fdiv_spec(intensity, m1);
    let f2 = fdiv_spec(intensity, m2);
    assert(0 <= f2 <= f1);
    let q = fmul_spec(INV_PI_FX as int, cos_angle);
    lemma_div_pos_is_pos((INV_PI_FX as int) * cos_angle, s);
    assert(q * f2 <= q * f1) by (nonlinear_arith)
        requires
            0 <= q,
            0 <= f2 <= f1,
    ;
    lemma_div_trunc_monotone(q * f2, q * f1, s);
    lemma_div_pos_is_pos(q * f2, s);
}

/// The per-pixel intensity fraction: an ambient level of 32 out of 255,
/// weighted by the ambient coefficient, blended with the diffuse value,
/// then normalized by the channel maximum.
pub open spec fn intensity_fraction_spec(ambient: int, value: int) -> int {
    fdiv_spec(
        fmul_spec(32 * (SCALE as int), ambient) + fmul_spec((SCALE as int) - ambient, value),
        255 * (SCALE as int),
    )
}

/// One 8-bit channel scaled by the intensity fraction and truncated to
/// an integer.
pub open spec fn channel_spec(fraction: int, channel: int) -> int {
    div_trunc(fmul_spec(fraction, channel * (SCALE as int)), SCALE as int)
}

/// The pixel the sphere contributes under a given diffuse value: each
/// stored channel is scaled by the intensity fraction independently.
pub open spec fn set_color_spec(ambient: int, value: int, color: Color) -> Color {
    Color {
        r: channel_spec(intensity_fraction_spec(ambient, value), color.r as int) as u8,
        g: channel_spec(intensity_fraction_spec(ambient, value), color.g as int) as u8,
        b: channel_spec(intensity_fraction_spec(ambient, value), color.b as int) as u8,
    }
}

/// With the ambient coefficient in `[0, 1]` and the diffuse value in
/// `[0, 255]`, the intensity fraction stays in `[0, 1]` and a channel it
/// scales stays in `[0, 255]`.
pub proof fn lemma_set_color_bounds(ambient: int, value: int, channel: int)
    requires
        0 <= ambient <= SCALE,
        0 <= value <= 255 * SCALE,
        0 <= channel <= 255,
    ensures
        fmul_spec(32 * (SCALE as int), ambient) == 32 * ambient,
        0 <= fmul_spec((SCALE as int) - ambient, value) <= 255 * ((SCALE as int) - ambient),
        0 <= intensity_fraction_spec(ambient, value) <= SCALE,
        0 <= channel_spec(intensity_fraction_spec(ambient, value), channel) <= 255,
        fits_i64(fmul_spec(intensity_fraction_spec(ambient, value), channel * (SCALE as int))),
        0 <= fmul_spec(intensity_fraction_spec(ambient, value), channel * (SCALE as int)) <= 255
            * (SCALE as int),
{
    let s = SCALE as int;
    let d = s - ambient;
    // The ambient term is exact: `32 * SCALE * ambient / SCALE == 32 * ambient`.
    assert(32 * s * ambient == s * (32 * ambient)) by (nonlinear_arith);
    lemma_div_multiples_vanish(32 * ambient, s);
    lemma_div_pos_is_pos(32 * s * ambient, s);
    // The diffuse term is bounded by `255 * (SCALE - ambient)`.
    assert(0 <= d * value <= d * (255 * s)) by (nonlinear_arith)
        requires
            0 <= d,
            0 <= value <= 255 * s,
    ;
    assert(d * (255 * s) == s * (255 * d)) by (nonlinear_arith);
    lemma_div_multiples_vanish(255 * d, s);
    lemma_div_is_ordered(d * value, d * (255 * s), s);
    lemma_div_pos_is_pos(d * value, s);
    // Their sum stays within one full channel span.
    let sum = fmul_spec(32 * s, ambient) + fmul_spec(d, value);
    assert(0 <= sum <= 255 * s);
    // So the fraction stays within the fixed-point one.
    lemma_mul_inequality(sum, 255 * s, s);
    assert((255 * s) * s == (255 * s) * s);
    lemma_div_is_ordered(sum * s, (255 * s) * s, 255 * s);
    lemma_div_multiples_vanish(s, 255 * s);
    lemma_div_pos_is_pos(sum * s, 255 * s);
    let f = intensity_fraction_spec(ambient, value);
    // A channel scaled by the fraction stays within the channel span.
    let cs = channel * s;
    assert(0 <= f * cs <= s * cs) by (nonlinear_arith)
        requires
            0 <= f <= s,
            0 <= cs,
    ;
    assert(s * cs == s * cs);
    lemma_div_multiples_vanish(cs, s);
    lemma_div_is_ordered(f * cs, s * cs, s);
    lemma_div_pos_is_pos(f * cs, s);
    // And truncating the scaled channel lands in `[0, 255]`.
    assert(cs <= 255 * s);
    lemma_div_is_ordered(fmul_spec(f, cs), 255 * s, s);
    lemma_div_multiples_vanish(255, s);
    assert(s * 255 == 255 * s) by (nonlinear_arith);
    lemma_div_pos_is_pos(fmul_spec(f, cs), s);
}

/// Raising the diffuse value, with the ambient coefficient and the color
/// fixed, never lowers any channel of the resulting pixel.
pub proof fn lemma_set_color_monotone_value(ambient: int, v1: int, v2: int, color: Color)
    requires
        0 <= ambient <= SCALE,
        0 <= v1 <= v2 <= 255 * SCALE,
    ensures
        set_color_spec(ambient, v1, color).r <= set_color_spec(ambient, v2, color).r,
        set_color_spec(ambient, v1, color).g <= set_color_spec(ambient, v2, color).g,
        set_color_spec(ambient, v1, color).b <= set_color_spec(ambient, v2, color).b,
{
    let s = SCALE as int;
    let d = s - ambient;
    assert(d * v1 <= d * v2) by (nonlinear_arith)
        requires
            0 <= d,
            v1 <= v2,
    ;
    lemma_div_trunc_monotone(d * v1, d * v2, s);
    lemma_div_pos_is_pos(d * v1, s);
    lemma_div_pos_is_pos(32 * s * ambient, s);
    let sum1 = fmul_spec(32 * s, ambient) + fmul_spec(d, v1);
    let sum2 = fmul_spec(32 * s, ambient) + fmul_spec(d, v2);
    assert(sum1 * s <= sum2 * s) by (nonlinear_arith)
        requires
            sum1 <= sum2,
            s == 65536,
    ;
    lemma_div_trunc_monotone(sum1 * s, sum2 * s, 255 * s);
    lemma_div_pos_is_pos(sum1 * s, 255 * s);
    let f1 = intensity_fraction_spec(ambient, v1);
    let f2 = intensity_fraction_spec(ambient, v2);
    lemma_channel_monotone(f1, f2, color.r as int);
    lemma_channel_monotone(f1, f2, color.g as int);
    lemma_channel_monotone(f1, f2, color.b as int);
    lemma_set_color_bounds(ambient, v1, color.r as int);
    lemma_set_color_bounds(ambient, v1, color.g as int);
    lemma_set_color_bounds(ambient, v1, color.b as int);
    lemma_set_color_bounds(ambient, v2, color.r as int);
    lemma_set_color_bounds(ambient, v2, color.g as int);
    lemma_set_color_bounds(ambient, v2, color.b as int);
}

/// A channel scaled by a larger fraction is no darker.
proof fn lemma_channel_monotone(f1: int, f2: int, channel: int)
    requires
        0 <= f1 <= f2,
        0 <= channel,
    ensures
        channel_spec(f1, channel) <= channel_spec(f2, channel),
{
    let s = SCALE as int;
    let cs = channel * s;
    assert(0 <= cs && f1 * cs <= f2 * cs) by (nonlinear_arith)
        requires
            0 <= f1 <= f2,
            0 <= channel,
            s == 65536,
            cs == channel * s,
    ;
    lemma_div_trunc_monotone(f1 * cs, f2 * cs, s);
    lemma_div_pos_is_pos(f1 * cs, s);
    lemma_div_trunc_monotone(fmul_spec(f1, cs), fmul_spec(f2, cs), s);
}

/// Raising the light intensity, all else fixed, never lowers any channel
/// of the shaded pixel, until the diffuse value's clamp at 255.
pub proof fn lemma_shading_monotone_intensity(
    ambient: int,
    cos_angle: int,
    i1: int,
    i2: int,
    dist_light: int,
    color: Color,
)
    requires
        0 <= ambient <= SCALE,
        0 <= cos_angle,
        0 <= i1 <= i2,
    ensures
        set_color_spec(ambient, light_value_spec(cos_angle, i1, dist_light), color).r
            <= set_color_spec(ambient, light_value_spec(cos_angle, i2, dist_light), color).r,
        set_color_spec(ambient, light_value_spec(cos_angle, i1, dist_light), color).g
            <= set_color_spec(ambient, light_value_spec(cos_angle, i2, dist_light), color).g,
        set_color_spec(ambient, light_value_spec(cos_angle, i1, dist_light), color).b
            <= set_color_spec(ambient, light_value_spec(cos_angle, i2, dist_light), color).b,
{
    lemma_light_value_monotone_intensity(cos_angle, i1, i2, dist_light);
    lemma_light_value_range(cos_angle, i1, dist_light);
    lemma_light_value_range(cos_angle, i2, dist_light);
    lemma_set_color_monotone_value(
        ambient,
        light_value_spec(cos_angle, i1, dist_light),
        light_value_spec(cos_angle, i2, dist_light),
        color,
    );
}

/// Blends the ambient level with the diffuse value and scales the
/// sphere's stored color by the resulting fraction.
pub fn set_color(value: i64, sphere: &Sphere3D, settings: &Settings) -> (c: Color)
    requires
        settings.wf(),
        0 <= value <= 255 * SCALE,
    ensures
        c == set_color_spec(settings.ambient_light as int, value as int, sphere.color),
{
    proof {
        lemma_set_color_bounds(settings.ambient_light as int, value as int, sphere.color.r as int);
        lemma_set_color_bounds(settings.ambient_light as int, value as int, sphere.color.g as int);
        lemma_set_color_bounds(settings.ambient_light as int, value as int, sphere.color.b as int);
    }
    let a = settings.ambient_coefficient();
    let d = settings.diffuse_coefficient();
    let intensity = fdiv(fmul(32 * SCALE, a) + fmul(d, value), 255 * SCALE);
    Color::new(
        (fmul(intensity, sphere.color.r as i64 * SCALE) / SCALE) as u8,
        (fmul(intensity, sphere.color.g as i64 * SCALE) / SCALE) as u8,
        (fmul(intensity, sphere.color.b as i64 * SCALE) / SCALE) as u8,
    )
}

/// The color of the hit at parameter `dist` of sphere `i` along the ray:
/// the surface point is rematerialized from the ray, the outward normal
/// and the direction to the light give the Lambertian cosine (clamped at
/// zero: light behind the surface contributes nothing, not negative
/// light), and the diffuse value is blended with the ambient level over
/// the sphere's stored color. No shadow ray is cast: other objects never
/// occlude the light.
pub open spec fn shade_hit_spec(
    settings: Settings,
    objects: Seq<Sphere3D>,
    light: Light,
    ray: RayModel,
    i: int,
    dist: int,
) -> Color {
    let hit = on_half_line_spec(ray.origin, ray.direction, dist);
    let s = objects[i];
    let normal = normal_spec(s.center@, s.radius as int, hit);
    let tl = between_spec(hit, light.center@);
    let dl = len_spec(tl);
    let cos = if dl < HALF_SCALE {
        0
    } else {
        let c = dot_spec(normal, unit_spec(tl));
        if c < 0 {
            0int
        } else {
            c
        }
    };
    set_color_spec(
        settings.ambient_light as int,
        light_value_spec(cos, light.intensity as int, dl),
        s.color,
    )
}

/// The color of one pixel: a ray from the eye at the origin through the
/// pixel's camera-space point, the nearest hit across the scene, and the
/// shading of that hit; a miss is flat black.
pub open spec fn render_pixel_spec(
    x: int,
    y: int,
    settings: Settings,
    objects: Seq<Sphere3D>,
    light: Light,
) -> Color {
    let cam = camera_spec(
        x,
        y,
        settings.width as int,
        settings.height as int,
        settings.tan_half_fov as int,
    );
    let o = V3 { x: 0, y: 0, z: 0 };
    let ray = RayModel { origin: o, direction: unit_spec(between_spec(o, cam)) };
    match nearest_spec(objects, ray) {
        Some((i, dist)) => shade_hit_spec(settings, objects, light, ray, i, dist),
        None => Color { r: 0, g: 0, b: 0 },
    }
}

/// Renders one pixel.
pub fn render_pixel(x: u16, y: u16, settings: &Settings, scene: &Scene) -> (c: Color)
    requires
        settings.wf(),
        scene.wf(),
        x < settings.width,
        y < settings.height,
    ensures
        c == render_pixel_spec(x as int, y as int, *settings, scene.objects@, scene.light),
{
    let p = image_coord_to_camera_space(x, y, settings);
    let origin = Point3D::new(0, 0, 0);
    proof {
        // The camera target sits at depth -1, so the ray's defining
        // displacement is at least one unit long.
        let t = between_spec(origin@, p@);
        lemma_fmul_one(-(SCALE as int));
        lemma_dot_self_nonneg(t);
        assert(dot_spec(t, t) >= SCALE);
        lemma_isqrt_ge(dot_spec(t, t) * (SCALE as int), SCALE as int);
    }
    let ray = Ray::new(origin, &p);
    let intersection = nearest_intersection(&ray, scene);
    match intersection {
        Some((i, dist)) => {
            let obj = &scene.objects[i];
            let intersection_point = ray.point_at(dist);
            let surface_normal = obj.get_normal(&intersection_point);
            proof {
                lemma_dot_bound(
                    between_spec(intersection_point@, scene.light.center@),
                    between_spec(intersection_point@, scene.light.center@),
                    HIT_MAX as int + COORD_MAX as int,
                    HIT_MAX as int + COORD_MAX as int,
                );
                lemma_dot_self_nonneg(between_spec(intersection_point@, scene.light.center@));
            }
            let ray_to_light_vec = Vec3D::between(&intersection_point, &scene.light.center);
            let dist_light = ray_to_light_vec.len();
            proof {
                lemma_isqrt_lt(
                    dot_spec(ray_to_light_vec@, ray_to_light_vec@) * (SCALE as int),
                    549755813888,
                );
            }
            let cos_angle: i64 = if dist_light < HALF_SCALE {
                0
            } else {
                let ray_to_light = ray_to_light_vec.unit();
                proof {
                    lemma_dot_bound(
                        surface_normal@,
                        ray_to_light@,
                        (HIT_MAX as int + COORD_MAX as int) * (SCALE as int),
                        DIR_MAX as int,
                    );
                }
                let c = surface_normal.dot(&ray_to_light);
                if c < 0 {
                    0
                } else {
                    c
                }
            };
            let val = light_value(cos_angle, scene.light.intensity, dist_light);
            set_color(val, obj, settings)
        },
        None => Color::new(0, 0, 0),
    }
}

/// Renders the whole image: every pixel in row-major order, top row
/// first, left to right, exactly `height * width` pixels. The embedding
/// application streams the returned buffer to its output encoder in the
/// same order.
pub fn render(settings: &Settings, scene: &Scene) -> (pixels: Vec<Color>)
    requires
        settings.wf(),
        scene.wf(),
    ensures
        pixels@.len() == (settings.height as int) * (settings.width as int),
        forall|py: int, px: int|
            0 <= py < settings.height && 0 <= px < settings.width ==> pixels@[py
                * (settings.width as int) + px] == render_pixel_spec(
                px,
                py,
                *settings,
                scene.objects@,
                scene.light,
            ),
{
    let w = settings.width;
    let h = settings.height;
    let mut pixels: Vec<Color> = Vec::new();
    let mut y: u16 = 0;
    while y < h
        invariant
            w == settings.width,
            h == settings.height,
            settings.wf(),
            scene.wf(),
            y <= h,
            pixels@.len() == (y as int) * (w as int),
            forall|py: int, px: int|
                0 <= py < y && 0 <= px < w ==> pixels@[py * (w as int) + px]
                    == render_pixel_spec(px, py, *settings, scene.objects@, scene.light),
        decreases h - y,
    {
        let mut x: u16 = 0;
        while x < w
            invariant
                w == settings.width,
                h == settings.height,
                settings.wf(),
                scene.wf(),
                y < h,
                x <= w,
                pixels@.len() == (y as int) * (w as int) + x as int,
                forall|py: int, px: int|
                    0 <= py < y && 0 <= px < w ==> pixels@[py * (w as int) + px]
                        == render_pixel_spec(px, py, *settings, scene.objects@, scene.light),
                forall|px: int|
                    0 <= px < x ==> pixels@[(y as int) * (w as int) + px] == render_pixel_spec(
                        px,
                        y as int,
                        *settings,
                        scene.objects@,
                        scene.light,
                    ),
            decreases w - x,
        {
            let c = render_pixel(x, y, settings, scene);
            pixels.push(c);
            proof {
                assert forall|py: int, px: int| 0 <= py < y && 0 <= px < w implies pixels@[py
                    * (w as int) + px] == render_pixel_spec(
                    px,
                    py,
                    *settings,
                    scene.objects@,
                    scene.light,
                ) by {
                    assert(0 <= py * (w as int) + px < (y as int) * (w as int) + x)
                        by (nonlinear_arith)
                        requires
                            0 <= py < y,
                            0 <= px < w,
                            0 <= x,
                    ;
                }
            }
            x = x + 1;
        }
        proof {
            assert((y as int) * (w as int) + (w as int) == ((y as int) + 1) * (w as int))
                by (nonlinear_arith);
        }
        y = y + 1;
    }
    pixels
}

} // verus!
