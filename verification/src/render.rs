//! The pixel loop: camera rays from a field-of-view projection, one
//! `cast_ray` per pixel, and tone mapping to 8-bit channels.

use vstd::prelude::*;

use crate::fix::{
    add_fx, div_fx, divi_fx, fx_add, fx_div, fx_divi, fx_mul, fx_muli, fx_neg, fx_sub, mul_fx,
    muli_fx, neg_fx, sub_fx, tdiv, SCALE,
};
use crate::raycast::{spec_cast_ray, Ray, Scene};
use crate::vec3::{v3_normalize, Vec3};

verus! {

#[derive(Clone, Copy, Debug, PartialEq, Eq, Structural)]
pub struct RenderParams {
    /// Tangent of half the field of view, as a fixed-point scalar; the caller
    /// derives it from the field-of-view angle.
    pub half_fov_tan: i64,
    pub width: u32,
    pub height: u32,
    /// Recursion budget handed to `cast_ray` for every pixel.
    pub depth: i32,
}

/// One output pixel: three 8-bit channels.
#[derive(Clone, Copy, Debug, PartialEq, Eq, Structural)]
pub struct Rgb8 {
    pub r: u8,
    pub g: u8,
    pub b: u8,
}

/// Tone mapping of one color component: clamp into `[0, 1]` and scale to
/// `[0, 255]`, truncating. Components above `1.0` map to exactly 255 and
/// components below `0.0` to exactly 0.
pub open spec fn spec_channel(c: i64) -> u8 {
    if c < 0 {
        0u8
    } else if c > SCALE {
        255u8
    } else {
        tdiv(c * 255, SCALE as int) as u8
    }
}

/// Tone mapping of one color component; see [`spec_channel`].
pub fn channel(c: i64) -> (r: u8)
    ensures
        r == spec_channel(c),
        c > SCALE ==> r == 255,
        c < 0 ==> r == 0,
{
    if c < 0 {
        0
    } else if c > SCALE {
        255
    } else {
        let w: u64 = (c as u64) * 255 / 1024;
        assert(w as int == tdiv(c * 255, 1024));
        assert(w <= 255);
        w as u8
    }
}

/// The camera-space direction of pixel `(i, j)`: normalized device
/// coordinates scaled by the half-angle tangent and the aspect ratio, with a
/// flipped y so rows grow downward, looking along `-z`.
pub open spec fn spec_pixel_dir(params: RenderParams, i: int, j: int) -> Vec3 {
    let w = params.width as i64;
    let h = params.height as i64;
    let nx = fx_sub(fx_divi(fx_muli(2i64, (1024 * i + 512) as i64), w), SCALE);
    let x = fx_divi(fx_muli(fx_mul(nx, params.half_fov_tan), w), h);
    let ny = fx_sub(fx_divi(fx_muli(2i64, (1024 * j + 512) as i64), h), SCALE);
    let y = fx_mul(fx_neg(ny), params.half_fov_tan);
    v3_normalize(Vec3 { x, y, z: -1024i64 })
}

/// The finished pixel `(i, j)`: the primary ray's color, tone mapped.
pub open spec fn spec_pixel(scene: Scene, params: RenderParams, i: int, j: int) -> Rgb8 {
    let dir = spec_pixel_dir(params, i, j);
    let color = spec_cast_ray(
        scene,
        Ray { origin: Vec3 { x: 0, y: 0, z: 0 }, direction: dir },
        params.depth as int,
    );
    Rgb8 { r: spec_channel(color.x), g: spec_channel(color.y), b: spec_channel(color.z) }
}

fn pixel_dir(params: &RenderParams, i: u32, j: u32) -> (r: Vec3)
    requires
        1 <= params.width,
        1 <= params.height,
        i < params.width,
        j < params.height,
    ensures
        r == spec_pixel_dir(*params, i as int, j as int),
{
    let w: i64 = params.width as i64;
    let h: i64 = params.height as i64;
    let iu: i64 = 1024 * (i as i64) + 512;
    let ju: i64 = 1024 * (j as i64) + 512;
    let nx: i64 = sub_fx(divi_fx(muli_fx(2, iu), w), SCALE);
    let x: i64 = divi_fx(muli_fx(mul_fx(nx, params.half_fov_tan), w), h);
    let ny: i64 = sub_fx(divi_fx(muli_fx(2, ju), h), SCALE);
    let y: i64 = mul_fx(neg_fx(ny), params.half_fov_tan);
    Vec3 { x, y, z: -1024 }.normalize()
}

proof fn lemma_grid_index(ii: int, jj: int, w: int, rows: int)
    requires
        0 <= ii < w,
        0 <= jj < rows,
    ensures
        0 <= jj * w + ii,
        jj * w + ii < rows * w,
        (rows - 1) * w + w == rows * w,
{
    assert(0 <= jj * w + ii && jj * w + ii < rows * w && (rows - 1) * w + w == rows * w)
        by (nonlinear_arith)
        requires
            0 <= ii < w,
            0 <= jj < rows,
    ;
}

/// Render the scene into a row-major grid of `width * height` pixels, the
/// origin at the top left.
pub fn render_scene(scene: &Scene, params: &RenderParams) -> (grid: Vec<Rgb8>)
    requires
        1 <= params.width,
        1 <= params.height,
        params.width * params.height <= usize::MAX,
    ensures
        grid@.len() == params.width * params.height,
        forall|i: int, j: int|
            0 <= i < params.width && 0 <= j < params.height ==> grid@[j * (
            params.width as int) + i] == spec_pixel(*scene, *params, i, j),
{
    let w: u32 = params.width;
    let h: u32 = params.height;
    let mut grid: Vec<Rgb8> = Vec::new();
    let mut j: u32 = 0;
    while j < h
        invariant
            j <= h,
            1 <= w,
            1 <= h,
            w == params.width,
            h == params.height,
            w * h <= usize::MAX,
            grid@.len() == j * w,
            forall|ii: int, jj: int|
                0 <= ii < w && 0 <= jj < j ==> grid@[jj * (w as int) + ii] == spec_pixel(
                    *scene,
                    *params,
                    ii,
                    jj,
                ),
        decreases h - j,
    {
        let mut i: u32 = 0;
        while i < w
            invariant
                i <= w,
                j < h,
                1 <= w,
                1 <= h,
                w == params.width,
                h == params.height,
                w * h <= usize::MAX,
                grid@.len() == j * w + i,
                forall|ii: int, jj: int|
                    0 <= ii < w && 0 <= jj < j ==> grid@[jj * (w as int) + ii] == spec_pixel(
                        *scene,
                        *params,
                        ii,
                        jj,
                    ),
                forall|ii: int|
                    0 <= ii < i ==> grid@[(j as int) * (w as int) + ii] == spec_pixel(
                        *scene,
                        *params,
                        ii,
                        j as int,
                    ),
            decreases w - i,
        {
            let dir: Vec3 = pixel_dir(params, i, j);
            let color: Vec3 = scene.cast_ray(
                &Ray { origin: Vec3 { x: 0, y: 0, z: 0 }, direction: dir },
                params.depth,
            );
            let px: Rgb8 = Rgb8 { r: channel(color.x), g: channel(color.y), b: channel(color.z) };
            proof {
                assert((j as int) * (w as int) + (i as int) < (h as int) * (w as int))
                    by (nonlinear_arith)
                    requires
                        0 <= (i as int) && (i as int) < (w as int),
                        0 <= (j as int) && (j as int) < (h as int),
                ;
                assert((j as int) * (w as int) + (i as int) == grid@.len());
            }
            grid.push(px);
            assert(px == spec_pixel(*scene, *params, i as int, j as int));
            i = i + 1;
            proof {
                assert forall|ii: int, jj: int| 0 <= ii < w && 0 <= jj < j implies grid@[jj * (
                w as int) + ii] == spec_pixel(*scene, *params, ii, jj) by {
                    lemma_grid_index(ii, jj, w as int, j as int);
                    assert(jj * (w as int) + ii < (j as int) * (w as int));
                }
                assert forall|ii: int| 0 <= ii < i implies grid@[(j as int) * (w as int) + ii]
                    == spec_pixel(*scene, *params, ii, j as int) by {
                    assert((j as int) * (w as int) + ii < grid@.len());
                }
            }
        }
        j = j + 1;
        proof {
            assert(grid@.len() == (j as int) * (w as int)) by (nonlinear_arith)
                requires
                    grid@.len() == ((j as int) - 1) * (w as int) + (w as int),
            ;
            assert forall|ii: int, jj: int| 0 <= ii < w && 0 <= jj < j implies grid@[jj * (
            w as int) + ii] == spec_pixel(*scene, *params, ii, jj) by {
                lemma_grid_index(ii, jj, w as int, j as int);
                if jj < j - 1 {
                    lemma_grid_index(ii, jj, w as int, (j as int) - 1);
                }
            }
        }
    }
    proof {
        assert((h as int) * (w as int) == (w as int) * (h as int)) by (nonlinear_arith);
    }
    grid
}

} // verus!
