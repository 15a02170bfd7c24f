//! Geometry model and the recursive shading engine.
//!
//! All coordinates and colors are saturating fixed-point scalars (see
//! [`crate::fix`]): an `i64` holding the real value times `SCALE`.

use vstd::prelude::*;

use crate::fix::{
    add_fx, clamp1_fx, div_fx, divi_fx, fx_add, fx_clamp1, fx_div, fx_divi, fx_max0, fx_mul,
    fx_neg, fx_pow, fx_sqrt, fx_sub, max0_fx, mul_fx, neg_fx, pow_fx, sqrt_fx, sub_fx, SCALE,
};
use crate::vec3::{v3_add, v3_dot, v3_length, v3_normalize, v3_scale, v3_sub, Vec3};

verus! {

/// Offset, in fixed-point units, by which secondary rays start away from the
/// surface they were spawned on (about `1e-3` in real units).
pub const RAY_EPS: i64 = 1;

#[derive(Clone, Copy, Debug, PartialEq, Eq, Structural)]
pub struct Ray {
    pub origin: Vec3,
    pub direction: Vec3,
}

#[derive(Clone, Copy, Debug, PartialEq)]
pub struct Material {
    /// Fixed-point refractive index.
    pub refractive_index: i64,
    /// Weights for the diffuse, specular, reflected and refracted
    /// contributions, in that order, as fixed-point scalars.
    pub albedo: [i64; 4],
    pub diffuse_color: Vec3,
    /// Plain integer exponent of the specular highlight.
    pub specular_exponent: u32,
}

#[derive(Clone, Copy, Debug, PartialEq)]
pub struct PointLight {
    pub position: Vec3,
    pub intensity: i64,
}

#[derive(Clone, Copy, Debug, PartialEq)]
pub struct RayIntersection {
    pub distance: i64,
    pub point: Vec3,
    pub normal: Vec3,
    pub material: Material,
}

#[derive(Clone, Copy, Debug, PartialEq)]
pub struct Sphere {
    pub center: Vec3,
    pub radius: i64,
    pub material: Material,
}

#[derive(Clone, Copy, Debug, PartialEq, Eq, Structural)]
pub struct DemoCheckerboard;

/// The closed set of object shapes a scene can hold.
#[derive(Clone, Copy, Debug, PartialEq)]
pub enum Renderable {
    Sphere(Sphere),
    Checkerboard(DemoCheckerboard),
}

pub struct Scene {
    pub objects: Vec<Renderable>,
    pub lights: Vec<PointLight>,
    pub clear_color: Vec3,
}

/// Mirror direction of `i` against the surface normal `n`:
/// `i - n * 2 * (i . n)`.
#[verifier::opaque]
pub open spec fn spec_reflect(i: Vec3, n: Vec3) -> Vec3 {
    v3_sub(i, v3_scale(v3_scale(n, 2048i64), v3_dot(i, n)))
}

/// Mirror direction of `i` against the surface normal `n`.
pub fn reflect(i: &Vec3, n: Vec3) -> (r: Vec3)
    ensures
        r == spec_reflect(*i, n),
{
    proof {
        reveal(spec_reflect);
    }
    i.sub(n.scale(2048).scale(i.dot(n)))
}

/// Snell refraction once the incidence cosine is known to be non-negative.
#[verifier::opaque]
pub open spec fn spec_refract_core(i: Vec3, n: Vec3, eta_t: i64, eta_i: i64, cosi: i64) -> Vec3 {
    let eta = fx_div(eta_i, eta_t);
    let k = fx_sub(SCALE, fx_mul(fx_mul(eta, eta), fx_sub(SCALE, fx_mul(cosi, cosi))));
    if k < 0 {
        Vec3 { x: SCALE, y: 0, z: 0 }
    } else {
        v3_add(v3_scale(i, eta), v3_scale(n, fx_sub(fx_mul(eta, cosi), fx_sqrt(k))))
    }
}

/// Snell refraction of `i` through a surface with normal `n`, from a medium of
/// index `eta_i` into one of index `eta_t`. When the ray exits rather than
/// enters, the normal is flipped, the indices swap, and the cosine is
/// re-examined against the flipped normal. Saturating negation can leave the
/// cosine negative once more when a normal component sits at `i64::MIN`; the
/// flip then happens a second time, after which every component lies in
/// `[-i64::MAX, i64::MAX]`, negation is exact and the cosine is non-negative.
/// Total internal reflection yields the sentinel direction `(1, 0, 0)`.
#[verifier::opaque]
pub open spec fn spec_refract(i: Vec3, n: Vec3, eta_t: i64, eta_i: i64) -> Vec3 {
    let cosi = fx_neg(fx_clamp1(v3_dot(i, n)));
    if cosi < 0 {
        let n2 = v3_scale(n, -1024i64);
        let cosi2 = fx_neg(fx_clamp1(v3_dot(i, n2)));
        if cosi2 < 0 {
            let n3 = v3_scale(n2, -1024i64);
            let cosi3 = fx_neg(fx_clamp1(v3_dot(i, n3)));
            spec_refract_core(i, n3, eta_t, eta_i, cosi3)
        } else {
            spec_refract_core(i, n2, eta_i, eta_t, cosi2)
        }
    } else {
        spec_refract_core(i, n, eta_t, eta_i, cosi)
    }
}

fn refract_core(i: &Vec3, n: Vec3, eta_t: i64, eta_i: i64, cosi: i64) -> (r: Vec3)
    ensures
        r == spec_refract_core(*i, n, eta_t, eta_i, cosi),
{
    proof {
        reveal(spec_refract_core);
    }
    let eta: i64 = div_fx(eta_i, eta_t);
    let k: i64 = sub_fx(SCALE, mul_fx(mul_fx(eta, eta), sub_fx(SCALE, mul_fx(cosi, cosi))));
    if k < 0 {
        Vec3 { x: SCALE, y: 0, z: 0 }
    } else {
        i.scale(eta).add(n.scale(sub_fx(mul_fx(eta, cosi), sqrt_fx(k))))
    }
}

/// Snell refraction; see [`spec_refract`].
pub fn refract(i: &Vec3, n: Vec3, eta_t: i64, eta_i: i64) -> (r: Vec3)
    ensures
        r == spec_refract(*i, n, eta_t, eta_i),
{
    proof {
        reveal(spec_refract);
    }
    let cosi: i64 = neg_fx(clamp1_fx(i.dot(n)));
    if cosi < 0 {
        let n2: Vec3 = n.scale(-1024);
        let cosi2: i64 = neg_fx(clamp1_fx(i.dot(n2)));
        if cosi2 < 0 {
            let n3: Vec3 = n2.scale(-1024);
            let cosi3: i64 = neg_fx(clamp1_fx(i.dot(n3)));
            refract_core(i, n3, eta_t, eta_i, cosi3)
        } else {
            refract_core(i, n2, eta_i, eta_t, cosi2)
        }
    } else {
        refract_core(i, n, eta_t, eta_i, cosi)
    }
}

/// Analytic sphere intersection. The returned `distance` is always the near
/// root `t0`, even when the far root `t1` positioned the hit point; this
/// mirrors the historic behaviour of the renderer and can report a negative
/// distance for a hit from inside the sphere.
#[verifier::opaque]
pub open spec fn spec_sphere_intersect(s: Sphere, ray: Ray) -> Option<RayIntersection> {
    let l = v3_sub(s.center, ray.origin);
    let tca = v3_dot(l, ray.direction);
    let d2 = fx_sub(v3_dot(l, l), fx_mul(tca, tca));
    let r2 = fx_mul(s.radius, s.radius);
    if d2 > r2 {
        None
    } else {
        let thc = fx_sqrt(fx_sub(r2, d2));
        let t0 = fx_sub(tca, thc);
        let t1 = fx_add(tca, thc);
        let d = if t0 < 0 {
            t1
        } else {
            t0
        };
        if d < 0 {
            None
        } else {
            let hit = v3_add(ray.origin, v3_scale(ray.direction, d));
            Some(
                RayIntersection {
                    distance: t0,
                    point: hit,
                    normal: v3_normalize(v3_sub(hit, s.center)),
                    material: s.material,
                },
            )
        }
    }
}

impl Sphere {
    /// Analytic sphere intersection; see [`spec_sphere_intersect`].
    pub fn ray_intersect(&self, ray: &Ray) -> (r: Option<RayIntersection>)
        ensures
            r == spec_sphere_intersect(*self, *ray),
    {
        proof {
            reveal(spec_sphere_intersect);
        }
        let l: Vec3 = self.center.sub(ray.origin);
        let tca: i64 = l.dot(ray.direction);
        let d2: i64 = sub_fx(l.dot(l), mul_fx(tca, tca));
        let r2: i64 = mul_fx(self.radius, self.radius);
        if d2 > r2 {
            return None;
        }
        let thc: i64 = sqrt_fx(sub_fx(r2, d2));
        let t0: i64 = sub_fx(tca, thc);
        let t1: i64 = add_fx(tca, thc);
        let d: i64 = if t0 < 0 {
            t1
        } else {
            t0
        };
        if d < 0 {
            None
        } else {
            let hit: Vec3 = ray.origin.add(ray.direction.scale(d));
            Some(
                RayIntersection {
                    distance: t0,
                    point: hit,
                    normal: hit.sub(self.center).normalize(),
                    material: self.material,
                },
            )
        }
    }
}

/// Material of the floor cell with the given parity.
pub open spec fn spec_checker_material(even: bool) -> Material {
    if even {
        Material {
            refractive_index: SCALE,
            albedo: [307i64, 0i64, 0i64, 0i64],
            diffuse_color: Vec3 { x: SCALE, y: SCALE, z: SCALE },
            specular_exponent: 1u32,
        }
    } else {
        Material {
            refractive_index: SCALE,
            albedo: [307i64, 0i64, 0i64, 0i64],
            diffuse_color: Vec3 { x: SCALE, y: 717, z: 307 },
            specular_exponent: 1u32,
        }
    }
}

fn checker_material(even: bool) -> (r: Material)
    ensures
        r == spec_checker_material(even),
{
    if even {
        Material {
            refractive_index: SCALE,
            albedo: [307, 0, 0, 0],
            diffuse_color: Vec3 { x: SCALE, y: SCALE, z: SCALE },
            specular_exponent: 1,
        }
    } else {
        Material {
            refractive_index: SCALE,
            albedo: [307, 0, 0, 0],
            diffuse_color: Vec3 { x: SCALE, y: 717, z: 307 },
            specular_exponent: 1,
        }
    }
}

/// Cell parity of the floor point `(x, z)`: the cell index along x (shifted by
/// 1000 cells to keep it positive over the visible footprint) plus the cell
/// index along z, taken modulo 2. Cells are two real units wide.
pub open spec fn spec_cell_even(x: i64, z: i64) -> bool {
    (crate::fix::tdiv(x + 2000 * (SCALE as int), 2 * (SCALE as int)) + crate::fix::tdiv(
        z as int,
        2 * (SCALE as int),
    )) % 2 == 0
}

/// Intersection with the demo floor: a horizontal plane at `y = -4` that only
/// reports hits over the rectangle `|x| < 10`, `-30 < z < -10`, with the two
/// cell materials alternating by parity.
#[verifier::opaque]
pub open spec fn spec_checker_intersect(ray: Ray) -> Option<RayIntersection> {
    if crate::fix::iabs(ray.direction.y as int) < 2 {
        None
    } else {
        let d = fx_div(fx_neg(fx_add(ray.origin.y, 4096i64)), ray.direction.y);
        let hit = v3_add(ray.origin, v3_scale(ray.direction, d));
        if d > 0 && crate::fix::iabs(hit.x as int) < 10 * SCALE && hit.z < -10 * SCALE && hit.z
            > -30 * SCALE {
            Some(
                RayIntersection {
                    distance: d,
                    point: hit,
                    normal: Vec3 { x: 0, y: SCALE, z: 0 },
                    material: spec_checker_material(spec_cell_even(hit.x, hit.z)),
                },
            )
        } else {
            None
        }
    }
}

impl DemoCheckerboard {
    /// Intersection with the demo floor; see [`spec_checker_intersect`].
    pub fn ray_intersect(&self, ray: &Ray) -> (r: Option<RayIntersection>)
        ensures
            r == spec_checker_intersect(*ray),
    {
        proof {
            reveal(spec_checker_intersect);
        }
        let dy: i64 = ray.direction.y;
        if -2 < dy && dy < 2 {
            return None;
        }
        let d: i64 = div_fx(neg_fx(add_fx(ray.origin.y, 4096)), dy);
        let hit: Vec3 = ray.origin.add(ray.direction.scale(d));
        if d > 0 && -10 * SCALE < hit.x && hit.x < 10 * SCALE && hit.z < -10 * SCALE && hit.z
            > -30 * SCALE {
            let ix: i64 = divi_fx(add_fx(hit.x, 2048000), 2048);
            let iz: i64 = divi_fx(hit.z, 2048);
            proof {
                lemma_cell_index_bounds(hit.x, hit.z);
            }
            let even: bool = ((ix + iz) as u64) % 2 == 0;
            assert(even == spec_cell_even(hit.x, hit.z));
            Some(
                RayIntersection {
                    distance: d,
                    point: hit,
                    normal: Vec3 { x: 0, y: SCALE, z: 0 },
                    material: checker_material(even),
                },
            )
        } else {
            None
        }
    }
}

/// Over the visible footprint the two floor cell indices stay in known small
/// positive-sum ranges, so their sum and its parity are well behaved.
proof fn lemma_cell_index_bounds(x: i64, z: i64)
    requires
        -10 * SCALE < x < 10 * SCALE,
        -30 * (SCALE as int) < z < -10 * SCALE,
    ensures
        995 <= crate::fix::tdiv(x + 2000 * (SCALE as int), 2 * (SCALE as int)) <= 1005,
        -15 <= crate::fix::tdiv(z as int, 2 * (SCALE as int)) <= -5,
        fx_divi(fx_add(x, 2048000i64), 2048i64) == crate::fix::tdiv(
            x + 2048000,
            2048,
        ),
        fx_divi(z, 2048i64) == crate::fix::tdiv(z as int, 2048),
{
    let a = x + 2000 * (SCALE as int);
    assert(1990 * (SCALE as int) < a < 2010 * (SCALE as int));
    assert(995 <= a / (2 * (SCALE as int)) <= 1005) by (nonlinear_arith)
        requires
            1990 * 1024 < a < 2010 * 1024,
    ;
    assert(crate::fix::tdiv(a, 2 * (SCALE as int)) == a / (2 * (SCALE as int)));
    let zn = -(z as int);
    assert(10 * (SCALE as int) < zn < 30 * (SCALE as int));
    assert(5 <= zn / (2 * (SCALE as int)) <= 15) by (nonlinear_arith)
        requires
            10 * 1024 < zn < 30 * 1024,
    ;
    assert(crate::fix::tdiv(z as int, 2 * (SCALE as int)) == -(zn / (2 * (SCALE as int))));
}

/// Intersection of a ray with one renderable object.
pub open spec fn spec_object_intersect(o: Renderable, ray: Ray) -> Option<RayIntersection> {
    match o {
        Renderable::Sphere(s) => spec_sphere_intersect(s, ray),
        Renderable::Checkerboard(_) => spec_checker_intersect(ray),
    }
}

impl Renderable {
    /// Intersection of a ray with this object.
    pub fn ray_intersect(&self, ray: &Ray) -> (r: Option<RayIntersection>)
        ensures
            r == spec_object_intersect(*self, *ray),
    {
        match self {
            Renderable::Sphere(s) => s.ray_intersect(ray),
            Renderable::Checkerboard(c) => c.ray_intersect(ray),
        }
    }
}

/// Nearest hit over the objects from index `k` on: each object is tested and
/// the strictly smallest `distance` wins, earlier objects winning ties.
pub open spec fn spec_nearest_from(objs: Seq<Renderable>, ray: Ray, k: int) -> Option<
    RayIntersection,
>
    decreases objs.len() - k,
{
    if k < 0 || k >= objs.len() {
        None
    } else {
        let rest = spec_nearest_from(objs, ray, k + 1);
        match spec_object_intersect(objs[k], ray) {
            None => rest,
            Some(h) => match rest {
                None => Some(h),
                Some(h2) => if h2.distance < h.distance {
                    Some(h2)
                } else {
                    Some(h)
                },
            },
        }
    }
}

/// Nearest hit over a whole object collection.
pub open spec fn spec_nearest(objs: Seq<Renderable>, ray: Ray) -> Option<RayIntersection> {
    spec_nearest_from(objs, ray, 0)
}

/// Nearest hit over a whole object collection; see [`spec_nearest`].
pub fn ray_intersect(objects: &Vec<Renderable>, ray: &Ray) -> (r: Option<RayIntersection>)
    ensures
        r == spec_nearest(objects@, *ray),
{
    let mut k: usize = objects.len();
    let mut best: Option<RayIntersection> = None;
    while k > 0
        invariant
            k <= objects.len(),
            best == spec_nearest_from(objects@, *ray, k as int),
        decreases k,
    {
        k = k - 1;
        let cur: Option<RayIntersection> = objects[k].ray_intersect(ray);
        best = match (cur, best) {
            (None, b) => b,
            (Some(h), None) => Some(h),
            (Some(h), Some(h2)) => if h2.distance < h.distance {
                Some(h2)
            } else {
                Some(h)
            },
        };
    }
    best
}

/// Start point of a secondary ray: the hit point pushed one `RAY_EPS` along
/// the normal, to the side the secondary direction heads for, so the ray does
/// not immediately re-hit its own surface.
pub open spec fn spec_offset_origin(point: Vec3, normal: Vec3, dir: Vec3) -> Vec3 {
    if v3_dot(dir, normal) < 0 {
        v3_sub(point, v3_scale(normal, RAY_EPS))
    } else {
        v3_add(point, v3_scale(normal, RAY_EPS))
    }
}

fn offset_origin(point: Vec3, normal: Vec3, dir: Vec3) -> (r: Vec3)
    ensures
        r == spec_offset_origin(point, normal, dir),
{
    if dir.dot(normal) < 0 {
        point.sub(normal.scale(RAY_EPS))
    } else {
        point.add(normal.scale(RAY_EPS))
    }
}

/// Diffuse and specular contribution of one light at the hit `h`, as a pair.
/// A light whose shadow ray hits an object strictly nearer than the light
/// contributes nothing at all.
#[verifier::opaque]
pub open spec fn spec_light_term(
    objs: Seq<Renderable>,
    ray: Ray,
    h: RayIntersection,
    light: PointLight,
) -> (i64, i64) {
    let light_dir = v3_normalize(v3_sub(light.position, h.point));
    let shadow_ray = Ray {
        origin: spec_offset_origin(h.point, h.normal, light_dir),
        direction: light_dir,
    };
    let occluded = match spec_nearest(objs, shadow_ray) {
        Some(sh) => sh.distance < v3_length(v3_sub(light.position, h.point)),
        None => false,
    };
    if occluded {
        (0i64, 0i64)
    } else {
        let diff = fx_mul(light.intensity, fx_max0(v3_dot(light_dir, h.normal)));
        let base = fx_max0(
            v3_dot(
                v3_scale(spec_reflect(v3_scale(light_dir, -1024i64), h.normal), -1024i64),
                ray.direction,
            ),
        );
        let spc = fx_mul(fx_pow(base, h.material.specular_exponent as nat), light.intensity);
        (diff, spc)
    }
}

fn light_term(objects: &Vec<Renderable>, ray: &Ray, h: &RayIntersection, light: &PointLight) -> (r:
    (i64, i64))
    ensures
        r == spec_light_term(objects@, *ray, *h, *light),
{
    proof {
        reveal(spec_light_term);
    }
    let light_dir: Vec3 = light.position.sub(h.point).normalize();
    let shadow_ray: Ray = Ray {
        origin: offset_origin(h.point, h.normal, light_dir),
        direction: light_dir,
    };
    let shadow_hit: Option<RayIntersection> = ray_intersect(objects, &shadow_ray);
    let occluded: bool = match shadow_hit {
        Some(sh) => sh.distance < light.position.sub(h.point).length(),
        None => false,
    };
    if occluded {
        (0, 0)
    } else {
        let diff: i64 = mul_fx(light.intensity, max0_fx(light_dir.dot(h.normal)));
        let base: i64 = max0_fx(
            reflect(&light_dir.scale(-1024), h.normal).scale(-1024).dot(ray.direction),
        );
        let spc: i64 = mul_fx(pow_fx(base, h.material.specular_exponent), light.intensity);
        (diff, spc)
    }
}

/// Accumulated diffuse and specular light of the first `k` lights, summed in
/// list order.
pub open spec fn spec_light_sums(
    objs: Seq<Renderable>,
    ray: Ray,
    h: RayIntersection,
    lights: Seq<PointLight>,
    k: int,
) -> (i64, i64)
    decreases k,
{
    if k <= 0 {
        (0i64, 0i64)
    } else {
        let prev = spec_light_sums(objs, ray, h, lights, k - 1);
        let t = spec_light_term(objs, ray, h, lights[k - 1]);
        (fx_add(prev.0, t.0), fx_add(prev.1, t.1))
    }
}

/// Final surface color at hit `h`: the light sums and the two secondary
/// colors, each weighted by the material's albedo component.
#[verifier::opaque]
pub open spec fn spec_shade(
    objs: Seq<Renderable>,
    lights: Seq<PointLight>,
    ray: Ray,
    h: RayIntersection,
    reflect_color: Vec3,
    refract_color: Vec3,
) -> Vec3 {
    let sums = spec_light_sums(objs, ray, h, lights, lights.len() as int);
    v3_add(
        v3_add(
            v3_add(
                v3_scale(v3_scale(h.material.diffuse_color, sums.0), h.material.albedo[0]),
                v3_scale(
                    v3_scale(Vec3 { x: SCALE, y: SCALE, z: SCALE }, sums.1),
                    h.material.albedo[1],
                ),
            ),
            v3_scale(reflect_color, h.material.albedo[2]),
        ),
        v3_scale(refract_color, h.material.albedo[3]),
    )
}

/// The color a ray gathers, by Whitted recursive ray tracing.
///
/// With no remaining depth or no hit this is the scene's background color.
/// On a hit it is the sum of the diffuse and specular light of all
/// unoccluded lights and of the recursively traced reflection and refraction
/// colors, each weighted by the material's albedo component.
pub open spec fn spec_cast_ray(scene: Scene, ray: Ray, depth: int) -> Vec3
    decreases (if depth <= 0 { 0int } else { depth }),
{
    let inter = spec_nearest(scene.objects@, ray);
    if depth <= 0 {
        scene.clear_color
    } else {
        match inter {
            None => scene.clear_color,
            Some(h) => {
                let reflect_dir = v3_normalize(spec_reflect(ray.direction, h.normal));
                let reflect_color = spec_cast_ray(
                    scene,
                    Ray {
                        origin: spec_offset_origin(h.point, h.normal, reflect_dir),
                        direction: reflect_dir,
                    },
                    depth - 1,
                );
                let refract_dir = v3_normalize(
                    spec_refract(ray.direction, h.normal, h.material.refractive_index, SCALE),
                );
                let refract_color = spec_cast_ray(
                    scene,
                    Ray {
                        origin: spec_offset_origin(h.point, h.normal, refract_dir),
                        direction: refract_dir,
                    },
                    depth - 1,
                );
                spec_shade(scene.objects@, scene.lights@, ray, h, reflect_color, refract_color)
            },
        }
    }
}

impl Scene {
    /// The color a ray gathers; see [`spec_cast_ray`]. Termination is bounded
    /// by `depth`, which strictly decreases at every recursive bounce.
    #[verifier::rlimit(100)]
    #[verifier::spinoff_prover]
    pub fn cast_ray(&self, ray: &Ray, depth: i32) -> (r: Vec3)
        ensures
            r == spec_cast_ray(*self, *ray, depth as int),
        decreases (if depth <= 0 { 0int } else { depth as int }),
    {
        let inter: Option<RayIntersection> = ray_intersect(&self.objects, ray);
        if depth <= 0 || inter.is_none() {
            return self.clear_color;
        }
        let h: RayIntersection = inter.unwrap();

        let reflect_dir: Vec3 = reflect(&ray.direction, h.normal).normalize();
        let reflect_ray: Ray = Ray {
            origin: offset_origin(h.point, h.normal, reflect_dir),
            direction: reflect_dir,
        };
        let reflect_color: Vec3 = self.cast_ray(&reflect_ray, depth - 1);

        let refract_dir: Vec3 = refract(
            &ray.direction,
            h.normal,
            h.material.refractive_index,
            SCALE,
        ).normalize();
        let refract_ray: Ray = Ray {
            origin: offset_origin(h.point, h.normal, refract_dir),
            direction: refract_dir,
        };
        let refract_color: Vec3 = self.cast_ray(&refract_ray, depth - 1);

        let color: Vec3 = shade(&self.objects, &self.lights, ray, &h, reflect_color, refract_color);
        proof {
            assert(spec_cast_ray(*self, *ray, depth as int) == spec_shade(
                self.objects@,
                self.lights@,
                *ray,
                h,
                reflect_color,
                refract_color,
            ));
        }
        color
    }
}

/// The light loop and the albedo-weighted combination of [`spec_shade`].
fn shade(
    objects: &Vec<Renderable>,
    lights: &Vec<PointLight>,
    ray: &Ray,
    h: &RayIntersection,
    reflect_color: Vec3,
    refract_color: Vec3,
) -> (r: Vec3)
    ensures
        r == spec_shade(objects@, lights@, *ray, *h, reflect_color, refract_color),
{
    proof {
        reveal(spec_shade);
    }
    let mut diffuse_light: i64 = 0;
    let mut specular_light: i64 = 0;
    let mut k: usize = 0;
    while k < lights.len()
        invariant
            k <= lights@.len(),
            diffuse_light == spec_light_sums(objects@, *ray, *h, lights@, k as int).0,
            specular_light == spec_light_sums(objects@, *ray, *h, lights@, k as int).1,
        decreases lights@.len() - k,
    {
        let t: (i64, i64) = light_term(objects, ray, h, &lights[k]);
        diffuse_light = add_fx(diffuse_light, t.0);
        specular_light = add_fx(specular_light, t.1);
        k = k + 1;
    }

    let white: Vec3 = Vec3 { x: SCALE, y: SCALE, z: SCALE };
    h.material.diffuse_color.scale(diffuse_light).scale(h.material.albedo[0]).add(
        white.scale(specular_light).scale(h.material.albedo[1]),
    ).add(reflect_color.scale(h.material.albedo[2])).add(
        refract_color.scale(h.material.albedo[3]),
    )
}

} // verus!
