//! Global laws of the renderer, stated and proved over the spec model.

use vstd::prelude::*;

use vstd::arithmetic::div_mod::{lemma_fundamental_div_mod, lemma_fundamental_div_mod_converse};

use crate::fix::{
    fx_clamp1, fx_max0, fx_mul, fx_neg, fx_sqrt, fx_sub, isqrt, lemma_isqrt_is, sat_fx, tdiv,
    SCALE,
};
use crate::raycast::{
    spec_cast_ray, spec_cell_even, spec_light_term, spec_nearest, spec_nearest_from,
    spec_object_intersect, spec_offset_origin, spec_refract, spec_sphere_intersect, Material,
    PointLight, Ray, RayIntersection, Renderable, Scene, Sphere,
};
use crate::vec3::{v3_dot, v3_length, v3_normalize, v3_scale, v3_sub, Vec3};

verus! {

/// With no depth budget left, a cast ray is the background color,
/// unconditionally, whatever the ray and the scene.
pub proof fn lemma_depth_zero_is_background(scene: Scene, ray: Ray, depth: int)
    requires
        depth <= 0,
    ensures
        spec_cast_ray(scene, ray, depth) == scene.clear_color,
{
}

proof fn lemma_nearest_from_none(objs: Seq<Renderable>, ray: Ray, k: int)
    requires
        forall|m: int|
            0 <= m < objs.len() ==> spec_object_intersect(#[trigger] objs[m], ray) is None,
    ensures
        spec_nearest_from(objs, ray, k) is None,
    decreases objs.len() - k,
{
    if 0 <= k < objs.len() {
        lemma_nearest_from_none(objs, ray, k + 1);
    }
}

/// A ray that misses every object in the scene gathers exactly the
/// background color, whatever the recursion depth.
pub proof fn lemma_all_miss_is_background(scene: Scene, ray: Ray, depth: int)
    requires
        forall|m: int|
            0 <= m < scene.objects@.len() ==> spec_object_intersect(
                #[trigger] scene.objects@[m],
                ray,
            ) is None,
    ensures
        spec_cast_ray(scene, ray, depth) == scene.clear_color,
{
    lemma_nearest_from_none(scene.objects@, ray, 0);
}

/// Size of the recursion tree of a cast: one call at each node, and at most
/// two bounces (reflection and refraction) below it while depth remains.
pub open spec fn spec_cast_calls(depth: int) -> int
    decreases (if depth <= 0 { 0int } else { depth }),
{
    if depth <= 0 {
        1int
    } else {
        1 + 2 * spec_cast_calls(depth - 1)
    }
}

/// Powers of two.
pub open spec fn pow2i(e: nat) -> int
    decreases e,
{
    if e == 0 {
        1int
    } else {
        2 * pow2i((e - 1) as nat)
    }
}

/// The recursion of a cast terminates in bounded work: a cast with budget
/// `depth` makes exactly `2^(depth + 1) - 1` calls in the worst case, so the
/// tree never grows beyond that bound however the scene is arranged.
pub proof fn lemma_cast_recursion_bound(depth: int)
    requires
        0 <= depth,
    ensures
        spec_cast_calls(depth) == pow2i((depth + 1) as nat) - 1,
    decreases depth,
{
    if depth == 0 {
        assert(pow2i(0) == 1);
        assert(pow2i(1) == 2);
    } else {
        lemma_cast_recursion_bound(depth - 1);
    }
}

/// The shadow test of one light at one hit: some object stands strictly
/// nearer along the line to the light than the light itself.
pub open spec fn spec_light_occluded(
    objs: Seq<Renderable>,
    h: RayIntersection,
    light: PointLight,
) -> bool {
    let light_dir = v3_normalize(v3_sub(light.position, h.point));
    let shadow_ray = Ray {
        origin: spec_offset_origin(h.point, h.normal, light_dir),
        direction: light_dir,
    };
    match spec_nearest(objs, shadow_ray) {
        Some(sh) => sh.distance < v3_length(v3_sub(light.position, h.point)),
        None => false,
    }
}

/// A light whose line of sight is blocked contributes nothing at all: both
/// its diffuse and its specular term are zero.
pub proof fn lemma_occluded_light_contributes_nothing(
    objs: Seq<Renderable>,
    ray: Ray,
    h: RayIntersection,
    light: PointLight,
)
    requires
        spec_light_occluded(objs, h, light),
    ensures
        spec_light_term(objs, ray, h, light) == (0i64, 0i64),
{
    reveal(spec_light_term);
}

/// An unobstructed light whose intensity and incidence product reaches one
/// fixed-point unit contributes strictly positive diffuse light.
pub proof fn lemma_clear_light_contributes(
    objs: Seq<Renderable>,
    ray: Ray,
    h: RayIntersection,
    light: PointLight,
)
    requires
        !spec_light_occluded(objs, h, light),
        0 <= v3_dot(v3_normalize(v3_sub(light.position, h.point)), h.normal),
        light.intensity * v3_dot(v3_normalize(v3_sub(light.position, h.point)), h.normal)
            >= SCALE,
    ensures
        spec_light_term(objs, ray, h, light).0 > 0,
{
    reveal(spec_light_term);
    let d = v3_dot(v3_normalize(v3_sub(light.position, h.point)), h.normal);
    let p = light.intensity * d;
    assert(fx_max0(d) == d);
    assert(p / 1024 >= 1) by (nonlinear_arith)
        requires
            p >= 1024,
    ;
    assert(tdiv(p, 1024) == p / 1024);
    assert(spec_light_term(objs, ray, h, light).0 == sat_fx(tdiv(p, 1024)));
}


proof fn lemma_tdiv_neg(x: int)
    ensures
        tdiv(-x, 1024) == -tdiv(x, 1024),
{
    assert(crate::fix::iabs(-x) == crate::fix::iabs(x));
}

proof fn lemma_mul_negated(a: i64, b: i64, nb: i64)
    requires
        nb as int == -(b as int),
    ensures
        fx_mul(a, nb) as int == -(fx_mul(a, b) as int),
        -i64::MAX <= fx_mul(a, b) <= i64::MAX,
{
    assert((a as int) * (nb as int) == -((a as int) * (b as int))) by (nonlinear_arith)
        requires
            nb as int == -(b as int),
    ;
    lemma_tdiv_neg((a as int) * (b as int));
}

proof fn lemma_dot_negated(i: Vec3, u: Vec3, w: Vec3)
    requires
        w.x as int == -(u.x as int),
        w.y as int == -(u.y as int),
        w.z as int == -(u.z as int),
    ensures
        v3_dot(i, w) as int == -(v3_dot(i, u) as int),
{
    lemma_mul_negated(i.x, u.x, w.x);
    lemma_mul_negated(i.y, u.y, w.y);
    lemma_mul_negated(i.z, u.z, w.z);
}

proof fn lemma_scale_neg_exact(c: i64)
    requires
        -i64::MAX <= c,
    ensures
        fx_mul(c, -1024i64) as int == -(c as int),
{
    if c >= 0 {
        lemma_fundamental_div_mod_converse(1024 * (c as int), 1024, c as int, 0);
        assert((c as int) * (-1024) == -(1024 * (c as int)));
        assert(tdiv((c as int) * (-1024), 1024) == -(c as int));
    } else {
        lemma_fundamental_div_mod_converse(1024 * (-(c as int)), 1024, -(c as int), 0);
        assert((c as int) * (-1024) == 1024 * (-(c as int)));
        assert(tdiv((c as int) * (-1024), 1024) == -(c as int));
    }
}

/// For an exiting ray — incidence cosine negative — refraction equals the
/// call with the normal flipped and the two indices swapped, as the
/// recursive formulation of Snell's law has it.
pub proof fn lemma_refract_exit_flips(i: Vec3, n: Vec3, eta_t: i64, eta_i: i64)
    requires
        fx_neg(fx_clamp1(v3_dot(i, n))) < 0,
    ensures
        spec_refract(i, n, eta_t, eta_i) == spec_refract(i, v3_scale(n, -1024i64), eta_i, eta_t),
{
    reveal(spec_refract);
    let n2 = v3_scale(n, -1024i64);
    let d2 = v3_dot(i, n2);
    let cosi2 = fx_neg(fx_clamp1(d2));
    if cosi2 < 0 {
        let n3 = v3_scale(n2, -1024i64);
        // The first flip saturated every component into [-i64::MAX, i64::MAX],
        // so the second flip negates exactly and the cosine changes sign.
        assert(-i64::MAX <= n2.x && -i64::MAX <= n2.y && -i64::MAX <= n2.z);
        lemma_scale_neg_exact(n2.x);
        lemma_scale_neg_exact(n2.y);
        lemma_scale_neg_exact(n2.z);
        lemma_dot_negated(i, n2, n3);
        let cosi3 = fx_neg(fx_clamp1(v3_dot(i, n3)));
        assert(fx_clamp1(v3_dot(i, n3)) as int == -(fx_clamp1(d2) as int));
        assert(cosi3 as int == -(cosi2 as int));
        assert(cosi3 >= 0);
    }
}

/// Moving one cell along x (two real units) flips the floor parity, anywhere
/// over the visible footprint.
pub proof fn lemma_cell_parity_alternates_x(x1: i64, x2: i64, z: i64)
    requires
        x2 == x1 + 2048,
        -10240 < x1,
        x2 < 10240,
        -30720 < z < -10240,
    ensures
        spec_cell_even(x2, z) == !spec_cell_even(x1, z),
{
    let a = x1 + 2048000;
    let q = a / 2048;
    let r = a % 2048;
    lemma_fundamental_div_mod(a, 2048);
    lemma_fundamental_div_mod_converse(a + 2048, 2048, q + 1, r);
    assert(tdiv(a, 2048) == q);
    assert(tdiv(a + 2048, 2048) == q + 1);
    let iz = tdiv(z as int, 2048);
    let s = q + iz;
    lemma_fundamental_div_mod(s, 2);
    lemma_fundamental_div_mod_converse(s + 1, 2, s / 2 + ((s % 2 + 1) / 2), (s % 2 + 1) % 2);
    assert((s + 1) % 2 != s % 2);
}

/// Moving one cell along z (two real units) flips the floor parity, anywhere
/// over the visible footprint.
pub proof fn lemma_cell_parity_alternates_z(x: i64, z1: i64, z2: i64)
    requires
        z2 == z1 + 2048,
        -10240 < x < 10240,
        -30720 < z1,
        z2 < -10240,
    ensures
        spec_cell_even(x, z2) == !spec_cell_even(x, z1),
{
    let zn = -(z1 as int);
    let q = zn / 2048;
    let r = zn % 2048;
    lemma_fundamental_div_mod(zn, 2048);
    assert(zn - 2048 == (q - 1) * 2048 + r) by (nonlinear_arith)
        requires
            zn == 2048 * q + r,
    ;
    lemma_fundamental_div_mod_converse(zn - 2048, 2048, q - 1, r);
    assert(tdiv(z1 as int, 2048) == -q);
    assert(tdiv(z2 as int, 2048) == -(q - 1));
    let ix = tdiv(x + 2048000, 2048);
    let s = ix + tdiv(z1 as int, 2048);
    lemma_fundamental_div_mod(s, 2);
    lemma_fundamental_div_mod_converse(s + 1, 2, s / 2 + ((s % 2 + 1) / 2), (s % 2 + 1) % 2);
    assert((s + 1) % 2 != s % 2);
}

/// A sphere straight ahead on the view axis at distance `dist` is hit at
/// distance exactly `dist - radius`. The hypothesis that `SCALE` divides
/// `radius * radius` makes the square root exact, as it is for any radius
/// that is a whole multiple of 32 fixed-point units.
pub proof fn lemma_axial_sphere_hit(o: Vec3, dist: i64, radius: i64, m: Material)
    requires
        0 < radius < dist,
        dist <= 0x4000_0000,
        (radius * radius) % 1024 == 0,
        -0x100_0000_0000 <= o.x <= 0x100_0000_0000,
        -0x100_0000_0000 <= o.y <= 0x100_0000_0000,
        -0x100_0000_0000 <= o.z <= 0x100_0000_0000,
    ensures
        ({
            let s = Sphere {
                center: Vec3 { x: o.x, y: o.y, z: fx_sub(o.z, dist) },
                radius,
                material: m,
            };
            let ray = Ray { origin: o, direction: Vec3 { x: 0, y: 0, z: -1024i64 } };
            &&& spec_sphere_intersect(s, ray) is Some
            &&& spec_sphere_intersect(s, ray)->Some_0.distance == dist - radius
        }),
{
    reveal(spec_sphere_intersect);
    reveal(crate::fix::fx_sqrt);
    let s = Sphere {
        center: Vec3 { x: o.x, y: o.y, z: fx_sub(o.z, dist) },
        radius,
        material: m,
    };
    let ray = Ray { origin: o, direction: Vec3 { x: 0, y: 0, z: -1024i64 } };
    let l = v3_sub(s.center, ray.origin);
    assert(l.x == 0 && l.y == 0 && l.z == -dist);
    let tca = v3_dot(l, ray.direction);
    lemma_fundamental_div_mod_converse((dist as int) * 1024, 1024, dist as int, 0);
    assert(tdiv((dist as int) * 1024, 1024) == dist) by {
        assert((dist as int) * 1024 >= 0) by (nonlinear_arith)
            requires
                dist >= 0,
        ;
    }
    assert(fx_mul(fx_neg(dist), -1024i64) == dist) by {
        assert((-(dist as int)) * (-1024) == (dist as int) * 1024) by (nonlinear_arith);
    }
    assert(tca == dist);
    let dd = (dist as int) * (dist as int);
    assert(0 <= dd <= 0x1000_0000_0000_0000) by (nonlinear_arith)
        requires
            0 < dist <= 0x4000_0000,
            dd == (dist as int) * (dist as int),
    ;
    let d2 = fx_sub(v3_dot(l, l), fx_mul(tca, tca));
    assert(fx_mul(l.z, l.z) == sat_fx(tdiv(dd, 1024))) by {
        assert((-(dist as int)) * (-(dist as int)) == dd) by (nonlinear_arith)
            requires
                dd == (dist as int) * (dist as int),
        ;
    }
    assert(v3_dot(l, l) == sat_fx(tdiv(dd, 1024)));
    assert(fx_mul(tca, tca) == sat_fx(tdiv(dd, 1024)));
    assert(0 <= tdiv(dd, 1024) <= dd);
    assert(d2 == 0);
    let rr = (radius as int) * (radius as int);
    assert(0 < rr <= dd) by (nonlinear_arith)
        requires
            0 < radius < dist,
            rr == (radius as int) * (radius as int),
            dd == (dist as int) * (dist as int),
    ;
    let r2 = fx_mul(s.radius, s.radius);
    assert(r2 == sat_fx(tdiv(rr, 1024)));
    assert(tdiv(rr, 1024) == rr / 1024);
    assert(r2 == rr / 1024);
    assert(r2 >= 0);
    assert(!(d2 > r2));
    let thc = fx_sqrt(fx_sub(r2, d2));
    assert(fx_sub(r2, d2) == r2);
    lemma_fundamental_div_mod(rr, 1024);
    assert(rr == 1024 * (rr / 1024));
    assert((r2 as int) * 1024 == rr) by (nonlinear_arith)
        requires
            r2 == rr / 1024,
            rr == 1024 * (rr / 1024),
    ;
    assert((radius as int) * (radius as int) <= rr < ((radius as int) + 1) * ((radius as int)
        + 1)) by (nonlinear_arith)
        requires
            rr == (radius as int) * (radius as int),
            0 < radius,
    ;
    lemma_isqrt_is(rr, radius as int);
    assert(isqrt((r2 as int) * 1024) == radius);
    assert(thc == radius);
    let t0 = fx_sub(tca, thc);
    assert(t0 == dist - radius);
    assert(t0 >= 0);
    assert(spec_sphere_intersect(s, ray) is Some);
    assert(spec_sphere_intersect(s, ray)->Some_0.distance == dist - radius);
}

} // verus!
