//! A minimal ray tracer: one camera ray per pixel, sphere and plane
//! primitives, nearest-hit arbitration, and gamma-corrected 8-bit output.
//!
//! All arithmetic is exact binary fixed-point (see [`fixed`]), so every
//! stage of the pipeline carries a contract that pins its result down to
//! the integer.

pub mod fixed;
pub mod gamma;
pub mod laws;
pub mod point;
pub mod rendering;
pub mod scene;
pub mod vector;

use vstd::prelude::*;
use crate::gamma::{byte_for, lemma_byte_scan_range};
use crate::rendering::{Ray, ray_spec};
use crate::scene::{Color, ConfigError, Rgba, Scene, trace_upto};

verus! {

/// The display pixel a color renders to: each channel gamma-encoded and
/// quantized, fully opaque.
pub open spec fn rgba_of(c: Color) -> Rgba {
    Rgba {
        r: byte_for(c.red.raw as int) as u8,
        g: byte_for(c.green.raw as int) as u8,
        b: byte_for(c.blue.raw as int) as u8,
        a: 255,
    }
}

/// The background: black, fully transparent.
pub open spec fn background() -> Rgba {
    Rgba { r: 0, g: 0, b: 0, a: 0 }
}

/// What pixel `(x, y)` of a scene renders to: trace the pixel's prime
/// ray against the whole geometry list; a hit shows the hit entry's
/// color, gamma-encoded, and a miss shows the background.
pub open spec fn pixel_spec(scene: Scene, x: int, y: int) -> Rgba {
    match trace_upto(scene.geometry@, ray_spec(x, y, scene), scene.geometry@.len() as int) {
        Option::Some(hit) => rgba_of(scene.geometry@[hit.object as int].color),
        Option::None => background(),
    }
}

/// Render the whole scene to a row-major raster of display pixels:
/// pixel `(x, y)` sits at index `y * width + x`.
///
/// The scene is validated first and an invalid one is rejected whole,
/// before any pixel is traced; a valid one renders every pixel to
/// exactly `pixel_spec`.
pub fn render(scene: &Scene) -> (r: Result<Vec<Rgba>, ConfigError>)
    ensures
        r.is_ok() <==> scene.wf(),
        r matches Ok(img) ==> img@.len() == scene.width * scene.height,
        r matches Ok(img) ==> forall|k: int|
            0 <= k < img@.len() ==> #[trigger] img@[k] == pixel_spec(
                *scene,
                k % (scene.width as int),
                k / (scene.width as int),
            ),
{
    match scene.validate() {
        Ok(()) => {},
        Err(e) => {
            return Err(e);
        },
    }
    let w = scene.width;
    let h = scene.height;
    let mut img: Vec<Rgba> = Vec::new();
    let mut y: u32 = 0;
    while y < h
        invariant
            scene.wf(),
            w == scene.width,
            h == scene.height,
            0 <= y <= h,
            img@.len() == y * w,
            forall|k: int|
                0 <= k < img@.len() ==> #[trigger] img@[k] == pixel_spec(
                    *scene,
                    k % (w as int),
                    k / (w as int),
                ),
        decreases h - y,
    {
        let mut x: u32 = 0;
        while x < w
            invariant
                scene.wf(),
                w == scene.width,
                h == scene.height,
                0 <= y < h,
                0 <= x <= w,
                img@.len() == y * w + x,
                forall|k: int|
                    0 <= k < img@.len() ==> #[trigger] img@[k] == pixel_spec(
                        *scene,
                        k % (w as int),
                        k / (w as int),
                    ),
            decreases w - x,
        {
            let ray = Ray::create_prime(x, y, scene);
            let hit = scene.trace(&ray);
            proof {
                vstd::std_specs::vec::axiom_spec_len(&scene.geometry);
                crate::laws::lemma_trace_nearest(
                    scene.geometry@,
                    ray,
                    scene.geometry@.len() as int,
                );
                vstd::arithmetic::div_mod::lemma_fundamental_div_mod_converse(
                    y * w + x,
                    w as int,
                    y as int,
                    x as int,
                );
            }
            match hit {
                Option::Some(i) => {
                    let c = entry_color(scene, i.object);
                    let px = c.to_rgba();
                    proof {
                        lemma_byte_scan_range(c.red.raw as int, 255);
                        lemma_byte_scan_range(c.green.raw as int, 255);
                        lemma_byte_scan_range(c.blue.raw as int, 255);
                        assert(px == rgba_of(c));
                    }
                    img.push(px);
                },
                Option::None => {
                    img.push(Rgba { r: 0, g: 0, b: 0, a: 0 });
                },
            }
            x = x + 1;
        }
        proof {
            assert((y as int + 1) * (w as int) == y * w + w) by (nonlinear_arith);
        }
        y = y + 1;
    }
    proof {
        assert(img@.len() == h * w);
        vstd::arithmetic::mul::lemma_mul_is_commutative(w as int, h as int);
    }
    Ok(img)
}

/// The color of one geometry entry.
fn entry_color(scene: &Scene, i: usize) -> (c: Color)
    requires
        i < scene.geometry@.len(),
    ensures
        c == scene.geometry@[i as int].color,
{
    scene.geometry[i].color
}

/// Looking a pixel up in the row-major raster `render` produces: index
/// `y * width + x` holds exactly `pixel_spec(scene, x, y)`.
pub proof fn lemma_raster_pixel(scene: Scene, pixels: Seq<Rgba>, x: int, y: int)
    requires
        pixels.len() == scene.width * scene.height,
        forall|k: int|
            0 <= k < pixels.len() ==> #[trigger] pixels[k] == pixel_spec(
                scene,
                k % (scene.width as int),
                k / (scene.width as int),
            ),
        0 <= x < scene.width,
        0 <= y < scene.height,
    ensures
        pixels[y * scene.width + x] == pixel_spec(scene, x, y),
{
    let wi = scene.width as int;
    vstd::arithmetic::div_mod::lemma_fundamental_div_mod_converse(y * wi + x, wi, y, x);
    assert(y * wi + x < scene.height * wi) by (nonlinear_arith)
        requires 0 <= y < scene.height, 0 <= x < wi,
    ;
    vstd::arithmetic::mul::lemma_mul_is_commutative(wi, scene.height as int);
}

} // verus!
