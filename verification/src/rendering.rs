//! Prime rays: one camera ray per pixel.

use vstd::prelude::*;
use crate::fixed::{
    Fixed, SCALE, iabs, tdiv, sqrt_raw, lemma_tdiv, lemma_tdiv_exact, lemma_tdiv_le,
    lemma_sqrt_raw,
};
use crate::point::Point;
use crate::vector::{Vector3, dot_raw, norm_spec};
use crate::scene::{Scene, ray_ok};

verus! {

/// A ray: an origin and a (normalized) direction.
#[derive(Clone, Copy, Debug, PartialEq, Eq, Structural)]
pub struct Ray {
    pub origin: Point,
    pub direction: Vector3,
}

/// The raw horizontal sensor coordinate of pixel column `x`: the image
/// formula `((2 * (x + 0.5) / width - 1) * aspect) * fov_adj` with
/// `aspect == width / height`, in which `width` cancels exactly, leaving
/// `((2 * x + 1 - width) / height) * fov_adj` on the fixed-point grid.
pub open spec fn sensor_x_raw(x: int, scene: Scene) -> int {
    let q = tdiv((2 * x + 1 - scene.width) * SCALE * SCALE, scene.height * SCALE);
    tdiv(q * scene.fov_adj.raw, SCALE as int)
}

/// The raw vertical sensor coordinate of pixel row `y`:
/// `(1 - 2 * (y + 0.5) / height) * fov_adj`, that is,
/// `((height - (2 * y + 1)) / height) * fov_adj` on the grid.
pub open spec fn sensor_y_raw(y: int, scene: Scene) -> int {
    let q = tdiv((scene.height - (2 * y + 1)) * SCALE * SCALE, scene.height * SCALE);
    tdiv(q * scene.fov_adj.raw, SCALE as int)
}

/// The prime ray of pixel `(x, y)`: origin at the camera, direction the
/// normalization of the sensor vector `(sensor_x, sensor_y, -1)`.
pub open spec fn ray_spec(x: int, y: int, scene: Scene) -> Ray {
    Ray {
        origin: Point {
            x: Fixed { raw: 0 },
            y: Fixed { raw: 0 },
            z: Fixed { raw: 0 },
        },
        direction: norm_spec(
            Vector3 {
                x: Fixed { raw: sensor_x_raw(x, scene) as i128 },
                y: Fixed { raw: sensor_y_raw(y, scene) as i128 },
                z: Fixed { raw: (-SCALE) as i128 },
            },
        ),
    }
}

impl Ray {
    /// The prime ray for pixel `(x, y)`: project the pixel center through
    /// the unit sensor plane one unit in front of the camera, adjusted
    /// for aspect ratio and field of view, and normalize.  The direction
    /// always has a strictly negative `z` slope of one unit before
    /// normalization, so it is well within `DIR_LIMIT` afterwards.
    pub fn create_prime(x: u32, y: u32, scene: &Scene) -> (r: Ray)
        requires
            scene.dims_ok(),
            scene.fov_ok(),
            x < scene.width,
            y < scene.height,
        ensures
            r == ray_spec(x as int, y as int, *scene),
            ray_ok(r),
    {
        let nx: i64 = 2 * (x as i64) + 1 - (scene.width as i64);
        let ny: i64 = (scene.height as i64) - (2 * (y as i64) + 1);
        let h = Fixed::from_int(scene.height as i64);
        proof {
            lemma_sensor_term_bounds(nx as int, scene.height as int, scene.fov_adj.raw as int);
            lemma_sensor_term_bounds(ny as int, scene.height as int, scene.fov_adj.raw as int);
        }
        let sx = Fixed::from_int(nx).div(h).mul(scene.fov_adj);
        let sy = Fixed::from_int(ny).div(h).mul(scene.fov_adj);
        let v = Vector3 { x: sx, y: sy, z: Fixed::from_int(-1) };
        proof {
            assert((-SCALE) * (-SCALE) == SCALE * SCALE) by (nonlinear_arith);
            lemma_tdiv_exact(SCALE * SCALE, SCALE as int, SCALE as int);
            lemma_tdiv(sx.raw * sx.raw, SCALE as int);
            lemma_tdiv(sy.raw * sy.raw, SCALE as int);
            assert(sx.raw * sx.raw >= 0) by (nonlinear_arith);
            assert(sy.raw * sy.raw >= 0) by (nonlinear_arith);
            let n = dot_raw(v, v) * SCALE;
            assert(dot_raw(v, v) >= SCALE);
            assert(n >= SCALE * SCALE) by (nonlinear_arith)
                requires n == dot_raw(v, v) * SCALE, dot_raw(v, v) >= SCALE, SCALE >= 1,
            ;
            lemma_dot_times_scale_covers(sx.raw as int, sy.raw as int, dot_raw(v, v));
            assert(n >= sx.raw * sx.raw);
            assert(n >= sy.raw * sy.raw);
            assert(n >= (-SCALE) * (-SCALE));
            lemma_div_by_root_bounded(sx.raw as int, n);
            lemma_div_by_root_bounded(sy.raw as int, n);
            lemma_div_by_root_bounded(-(SCALE as int), n);
        }
        Ray { origin: Point::zero(), direction: v.normalize() }
    }
}

/// Bounds for one sensor term: the pixel numerator is small, so the
/// division by the height and the multiplication by the field-of-view
/// tangent stay far inside the representable range.
proof fn lemma_sensor_term_bounds(num: int, height: int, fov: int)
    requires
        -8192 <= num <= 8192,
        1 <= height <= 4096,
        1 <= fov <= 4398046511104,
    ensures
        -85070591730234615865843651857942052864 <= num * SCALE * SCALE
            <= 85070591730234615865843651857942052864,
        -35184372088832 <= tdiv(num * SCALE * SCALE, height * SCALE) <= 35184372088832,
        -85070591730234615865843651857942052864 <= tdiv(num * SCALE * SCALE, height * SCALE)
            * fov <= 85070591730234615865843651857942052864,
        -36028797018963968 <= tdiv(tdiv(num * SCALE * SCALE, height * SCALE) * fov, SCALE as int)
            <= 36028797018963968,
        1 <= height * SCALE,
{
    assert(-35184372088832 * (height * SCALE) <= num * SCALE * SCALE <= 35184372088832 * (height
        * SCALE)) by (nonlinear_arith)
        requires -8192 <= num <= 8192, 1 <= height,
    ;
    assert(1 <= height * SCALE) by (nonlinear_arith)
        requires 1 <= height,
    ;
    lemma_tdiv_le(num * SCALE * SCALE, height * SCALE, 35184372088832);
    let q = tdiv(num * SCALE * SCALE, height * SCALE);
    assert(-154742504910672534362390528 <= q * fov <= 154742504910672534362390528)
        by (nonlinear_arith)
        requires -35184372088832 <= q <= 35184372088832, 1 <= fov <= 4398046511104,
    ;
    assert(-36028797018963968 * SCALE <= q * fov <= 36028797018963968 * SCALE);
    lemma_tdiv_le(q * fov, SCALE as int, 36028797018963968);
}

/// The sensor vector's fixed-point dot product with itself, scaled back
/// up, covers the square of each of its components: the `z` term alone
/// contributes a full `SCALE`, and each truncated square term recovers
/// its own square up to less than `SCALE`.
proof fn lemma_dot_times_scale_covers(cx: int, cy: int, d: int)
    requires
        d == tdiv(cx * cx, SCALE as int) + tdiv(cy * cy, SCALE as int) + tdiv(
            (-SCALE) * (-SCALE),
            SCALE as int,
        ),
    ensures
        d * SCALE >= cx * cx,
        d * SCALE >= cy * cy,
        d * SCALE >= SCALE * SCALE,
{
    assert((-SCALE) * (-SCALE) == SCALE * SCALE) by (nonlinear_arith);
    lemma_tdiv_exact(SCALE * SCALE, SCALE as int, SCALE as int);
    lemma_tdiv(cx * cx, SCALE as int);
    lemma_tdiv(cy * cy, SCALE as int);
    assert(cx * cx >= 0) by (nonlinear_arith);
    assert(cy * cy >= 0) by (nonlinear_arith);
    let tx = tdiv(cx * cx, SCALE as int);
    let ty = tdiv(cy * cy, SCALE as int);
    assert(d * SCALE == tx * SCALE + ty * SCALE + SCALE * SCALE) by (nonlinear_arith)
        requires d == tx + ty + SCALE,
    ;
    assert(tx * SCALE > cx * cx - SCALE);
    assert(ty * SCALE > cy * cy - SCALE);
    assert(tx * SCALE >= 0) by (nonlinear_arith)
        requires tx >= 0, SCALE >= 0,
    ;
    assert(ty * SCALE >= 0) by (nonlinear_arith)
        requires ty >= 0, SCALE >= 0,
    ;
    assert(SCALE * SCALE >= SCALE) by (nonlinear_arith)
        requires SCALE >= 1,
    ;
}

/// Dividing `c * SCALE` by the truncated square root of an `n` that
/// covers `c * c` keeps the quotient within one unit (`SCALE` raw).
proof fn lemma_div_by_root_bounded(c: int, n: int)
    requires
        n >= SCALE * SCALE,
        n >= c * c,
    ensures
        sqrt_raw(n) >= iabs(c),
        sqrt_raw(n) >= 1,
        -SCALE <= tdiv(c * SCALE, sqrt_raw(n)) <= SCALE,
{
    assert(n >= 0) by (nonlinear_arith)
        requires n >= SCALE * SCALE,
    ;
    lemma_sqrt_raw(n);
    let m = sqrt_raw(n);
    assert(m + 1 > iabs(c)) by (nonlinear_arith)
        requires (m + 1) * (m + 1) > n, n >= c * c, m >= 0,
    ;
    if m == 0 {
        assert((m + 1) * (m + 1) == 1) by (nonlinear_arith)
            requires m == 0,
        ;
        assert(false) by (nonlinear_arith)
            requires n < 1, n >= SCALE * SCALE, SCALE >= 1,
        ;
    }
    assert(-SCALE * m <= c * SCALE <= SCALE * m) by (nonlinear_arith)
        requires iabs(c) <= m, SCALE >= 1,
    ;
    lemma_tdiv_le(c * SCALE, m, SCALE as int);
}

} // verus!
