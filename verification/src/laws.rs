//! The library's laws: properties of the pipeline proved once and for
//! all, over the same spec functions the executable contracts use.

use vstd::prelude::*;
use crate::fixed::{
    Fixed, SCALE, tdiv, sqrt_raw, lemma_tdiv, lemma_tdiv_exact, lemma_tdiv_le, lemma_sqrt_raw,
    lemma_sqrt_raw_unique,
};
use crate::gamma::{
    decode_raw, byte_for, byte_scan, lemma_byte_scan_range, lemma_byte_scan_tight,
};
use crate::scene::{Color, Element, Geometry, Plane, Sphere, EPSILON_RAW, clamp_raw, trace_upto};
use crate::vector::{Vector3, dot_raw, lemma_dot_raw_le};
use crate::rendering::{Ray, ray_spec, sensor_x_raw, sensor_y_raw};

verus! {

/// The displacement from the ray's origin to the sphere's center, on the
/// fixed-point grid: the `l` of the sphere intersection method.
pub open spec fn center_offset(s: Sphere, ray: Ray) -> Vector3 {
    Vector3 {
        x: Fixed { raw: (s.center.x.raw - ray.origin.x.raw) as i128 },
        y: Fixed { raw: (s.center.y.raw - ray.origin.y.raw) as i128 },
        z: Fixed { raw: (s.center.z.raw - ray.origin.z.raw) as i128 },
    }
}

/// The sphere's squared radius on the fixed-point grid.
pub open spec fn sphere_radius_sq(s: Sphere) -> int {
    tdiv(s.radius.raw * s.radius.raw, SCALE as int)
}

/// A ray whose origin lies strictly outside a sphere and which points
/// away from the center never hits it: with `l . l > radius^2` (origin
/// outside) and `l . dir <= 0` (pointing away), the intersection is a
/// miss.
pub proof fn lemma_sphere_miss_pointing_away(s: Sphere, ray: Ray)
    requires
        dot_raw(center_offset(s, ray), center_offset(s, ray)) > sphere_radius_sq(s),
        dot_raw(center_offset(s, ray), ray.direction) <= 0,
    ensures
        Element::Sphere(s).hit_spec(ray) is None,
{
    let l = center_offset(s, ray);
    let adj = dot_raw(l, ray.direction);
    let ll = dot_raw(l, l);
    let adjsq = tdiv(adj * adj, SCALE as int);
    let d2 = ll - adjsq;
    let r2 = sphere_radius_sq(s);
    if d2 > r2 {
    } else {
        lemma_tdiv(adj * adj, SCALE as int);
        assert(adj * adj >= 0) by (nonlinear_arith);
        assert((r2 - d2) * SCALE <= adjsq * SCALE - SCALE) by (nonlinear_arith)
            requires r2 - d2 <= adjsq - 1, SCALE >= 1,
        ;
        assert((r2 - d2) * SCALE >= 0) by (nonlinear_arith)
            requires r2 - d2 >= 0, SCALE >= 1,
        ;
        lemma_sqrt_raw((r2 - d2) * SCALE);
        let thc = sqrt_raw((r2 - d2) * SCALE);
        assert(thc * thc < adj * adj);
        assert(thc < -adj) by (nonlinear_arith)
            requires thc >= 0, adj <= 0, thc * thc < adj * adj,
        ;
    }
}

/// A ray through a sphere's center, fired from outside toward the
/// center, hits at the distance to the center minus the radius (both on
/// the grid): when the perpendicular term `d2` vanishes, `adj` is the
/// distance to the center and the hit is `adj - sqrt(radius^2)`.
pub proof fn lemma_sphere_hit_through_center(s: Sphere, ray: Ray)
    requires
        // the ray's line passes through the center on the grid
        dot_raw(center_offset(s, ray), center_offset(s, ray)) == tdiv(
            dot_raw(center_offset(s, ray), ray.direction) * dot_raw(
                center_offset(s, ray),
                ray.direction,
            ),
            SCALE as int,
        ),
        // the center lies ahead of the origin
        dot_raw(center_offset(s, ray), ray.direction) > 0,
        // the origin lies strictly outside the sphere
        dot_raw(center_offset(s, ray), center_offset(s, ray)) > sphere_radius_sq(s),
    ensures
        dot_raw(center_offset(s, ray), ray.direction) - sqrt_raw(sphere_radius_sq(s) * SCALE)
            > 0,
        Element::Sphere(s).hit_spec(ray) == Some(
            Fixed {
                raw: (dot_raw(center_offset(s, ray), ray.direction) - sqrt_raw(
                    sphere_radius_sq(s) * SCALE,
                )) as i128,
            },
        ),
{
    let l = center_offset(s, ray);
    let adj = dot_raw(l, ray.direction);
    let ll = dot_raw(l, l);
    let adjsq = tdiv(adj * adj, SCALE as int);
    let r2 = sphere_radius_sq(s);
    assert(s.radius.raw * s.radius.raw >= 0) by (nonlinear_arith);
    lemma_tdiv(s.radius.raw * s.radius.raw, SCALE as int);
    assert(r2 >= 0);
    assert(ll - adjsq == 0);
    lemma_tdiv(adj * adj, SCALE as int);
    assert(adj * adj >= 0) by (nonlinear_arith);
    assert(adjsq * SCALE <= adj * adj);
    assert(adjsq >= r2 + 1);
    assert((r2 + 1) * SCALE == r2 * SCALE + SCALE) by (nonlinear_arith);
    assert(adjsq * SCALE >= (r2 + 1) * SCALE) by (nonlinear_arith)
        requires adjsq >= r2 + 1, SCALE >= 1,
    ;
    assert(r2 * SCALE >= 0) by (nonlinear_arith)
        requires r2 >= 0, SCALE >= 1,
    ;
    lemma_sqrt_raw(r2 * SCALE);
    let thc = sqrt_raw(r2 * SCALE);
    assert(thc * thc <= r2 * SCALE);
    assert(adj * adj > thc * thc);
    assert(adj > thc) by (nonlinear_arith)
        requires adj > 0, thc >= 0, adj * adj > thc * thc,
    ;
}

/// A radius with at most sixteen fractional bits survives squaring and
/// the square root unchanged on the grid, so for such radii (every
/// integer radius among them) the hit of
/// `lemma_sphere_hit_through_center` is literally the distance to the
/// center minus the radius.
pub proof fn lemma_radius_exact_on_grid(r: int)
    requires
        r >= 0,
        r % 65536 == 0,
    ensures
        sqrt_raw(tdiv(r * r, SCALE as int) * SCALE) == r,
{
    let k = r / 65536;
    vstd::arithmetic::div_mod::lemma_fundamental_div_mod(r, 65536);
    assert(r * r == (k * k) * SCALE) by (nonlinear_arith)
        requires r == 65536 * k, SCALE == 4294967296,
    ;
    assert(k * k >= 0) by (nonlinear_arith);
    lemma_tdiv_exact(r * r, SCALE as int, k * k);
    assert(tdiv(r * r, SCALE as int) * SCALE == r * r) by (nonlinear_arith)
        requires tdiv(r * r, SCALE as int) == k * k, r == 65536 * k, SCALE == 4294967296,
    ;
    assert(r * r < (r + 1) * (r + 1)) by (nonlinear_arith)
        requires r >= 0,
    ;
    lemma_sqrt_raw_unique(r * r, r);
}

/// The display round trip lands in the same quantization cell: encoding
/// a channel `c` in `[0, 1]` to a byte and decoding it again gives the
/// largest tabulated intensity not above `c`, and the next byte (when
/// there is one) already decodes above `c` — the round trip is exact up
/// to one gamma-space quantization step.
pub proof fn lemma_gamma_round_trip(c: int)
    requires
        0 <= c <= SCALE,
    ensures
        0 <= byte_for(c) <= 255,
        decode_raw(byte_for(c)) <= c,
        byte_for(c) == 255 || c < decode_raw(byte_for(c) + 1),
{
    lemma_byte_scan_range(c, 255);
    lemma_byte_scan_le(c, 255);
    let b = byte_for(c);
    if b < 255 {
        lemma_byte_scan_tight(c, 255, b + 1);
    }
}

/// What `byte_scan` keeps really decodes at or below `c`.
proof fn lemma_byte_scan_le(c: int, k: int)
    requires
        c >= 0,
        0 <= k <= 255,
    ensures
        decode_raw(byte_scan(c, k)) <= c,
    decreases k,
{
    if k > 0 {
        if decode_raw(k) <= c {
        } else {
            lemma_byte_scan_le(c, k - 1);
        }
    }
}

/// The round trip for a whole color, channel by channel: what
/// `Color::from_rgba(c.to_rgba())` holds never exceeds the original
/// channel, and sits within one quantization step of it.
pub proof fn lemma_color_round_trip(col: Color)
    requires
        0 <= col.red.raw <= SCALE,
        0 <= col.green.raw <= SCALE,
        0 <= col.blue.raw <= SCALE,
    ensures
        decode_raw(byte_for(col.red.raw as int)) <= col.red.raw,
        decode_raw(byte_for(col.green.raw as int)) <= col.green.raw,
        decode_raw(byte_for(col.blue.raw as int)) <= col.blue.raw,
        byte_for(col.red.raw as int) == 255 || col.red.raw < decode_raw(
            byte_for(col.red.raw as int) + 1,
        ),
        byte_for(col.green.raw as int) == 255 || col.green.raw < decode_raw(
            byte_for(col.green.raw as int) + 1,
        ),
        byte_for(col.blue.raw as int) == 255 || col.blue.raw < decode_raw(
            byte_for(col.blue.raw as int) + 1,
        ),
{
    lemma_gamma_round_trip(col.red.raw as int);
    lemma_gamma_round_trip(col.green.raw as int);
    lemma_gamma_round_trip(col.blue.raw as int);
}

/// Clamping is idempotent: clamping an already clamped channel changes
/// nothing.
pub proof fn lemma_clamp_idempotent(c: int)
    ensures
        clamp_raw(clamp_raw(c)) == clamp_raw(c),
{
}

/// A pixel whose sensor coordinates vanish looks straight down the
/// optical axis: its prime ray's direction is exactly `(0, 0, -1)`,
/// whatever the dimensions and field of view.
pub proof fn lemma_centered_pixel_looks_forward(x: int, y: int, scene: crate::scene::Scene)
    requires
        sensor_x_raw(x, scene) == 0,
        sensor_y_raw(y, scene) == 0,
    ensures
        ray_spec(x, y, scene).direction == (Vector3 {
            x: Fixed { raw: 0 },
            y: Fixed { raw: 0 },
            z: Fixed { raw: (-SCALE) as i128 },
        }),
{
    let v = Vector3 {
        x: Fixed { raw: 0 },
        y: Fixed { raw: 0 },
        z: Fixed { raw: (-SCALE) as i128 },
    };
    assert(v.z.raw == -SCALE);
    assert(v.z.raw * v.z.raw == SCALE * SCALE) by (nonlinear_arith)
        requires v.z.raw == -SCALE,
    ;
    lemma_tdiv_exact(SCALE * SCALE, SCALE as int, SCALE as int);
    lemma_tdiv_exact(0, SCALE as int, 0);
    assert(tdiv(v.x.raw * v.x.raw, SCALE as int) == 0);
    assert(tdiv(v.y.raw * v.y.raw, SCALE as int) == 0);
    assert(tdiv(v.z.raw * v.z.raw, SCALE as int) == SCALE);
    assert(dot_raw(v, v) == SCALE);
    assert(SCALE * SCALE < (SCALE + 1) * (SCALE + 1)) by (nonlinear_arith)
        requires SCALE >= 1,
    ;
    lemma_sqrt_raw_unique(SCALE * SCALE, SCALE as int);
    let m = sqrt_raw(dot_raw(v, v) * SCALE);
    assert(m == SCALE);
    lemma_tdiv_exact(0, m, 0);
    assert(v.z.raw * SCALE == -(SCALE * SCALE)) by (nonlinear_arith)
        requires v.z.raw == -SCALE,
    ;
    assert(SCALE * SCALE >= SCALE) by (nonlinear_arith)
        requires SCALE >= 1,
    ;
    assert(tdiv(v.z.raw * SCALE, m) == -SCALE);
}

/// A plane facing the camera is one-sided: whenever the direction does
/// not run against the normal beyond the tolerance (`denom <= epsilon`),
/// the plane is a miss, even where the ray's line crosses it.
pub proof fn lemma_plane_one_sided(p: Plane, ray: Ray)
    requires
        dot_raw(p.normal, ray.direction) <= EPSILON_RAW,
    ensures
        Element::Plane(p).hit_spec(ray) is None,
{
}

/// A reported hit always lies ahead of the ray's origin: for every
/// representable primitive and admissible ray, the intersection distance
/// is non-negative.
pub proof fn lemma_hit_nonneg(e: Element, ray: Ray)
    requires
        e.in_range(),
        crate::scene::ray_ok(ray),
    ensures
        match e.hit_spec(ray) {
            Option::None => true,
            Option::Some(d) => d.raw >= 0,
        },
{
    match e {
        Element::Sphere(s) => {
            let l = center_offset(s, ray);
            lemma_dot_raw_le(l, ray.direction, 9007199254740992, 17179869184, 36028797018963968);
            lemma_dot_raw_le(l, l, 9007199254740992, 9007199254740992, 18889465931478580854784);
            crate::vector::lemma_dot_self_nonneg(l);
            let adj = dot_raw(l, ray.direction);
            let ll = dot_raw(l, l);
            assert(0 <= adj * adj <= 20769187434139310514121985316880384) by (nonlinear_arith)
                requires -108086391056891904 <= adj <= 108086391056891904,
            ;
            lemma_tdiv_le(adj * adj, SCALE as int, 4835703278458516698824704);
            let adjsq = tdiv(adj * adj, SCALE as int);
            let d2 = ll - adjsq;
            assert(0 <= s.radius.raw * s.radius.raw
                <= 20282409603651670423947251286016) by (nonlinear_arith)
                requires 0 <= s.radius.raw <= 4503599627370496,
            ;
            lemma_tdiv_le(s.radius.raw * s.radius.raw, SCALE as int, 4722366482869645213696);
            let r2 = sphere_radius_sq(s);
            if d2 <= r2 {
                assert((r2 - d2) * SCALE <= 332306998946228968225951765070086144)
                    by (nonlinear_arith)
                    requires 0 <= r2 - d2 <= 77371252455336267181195264, SCALE == 4294967296,
                ;
                lemma_sqrt_raw((r2 - d2) * SCALE);
                crate::fixed::lemma_sqrt_raw_le_bound((r2 - d2) * SCALE, 576460752303423488);
                let thc = sqrt_raw((r2 - d2) * SCALE);
                let t0 = adj - thc;
                let t1 = adj + thc;
                if !(t0 < 0 && t1 < 0) {
                    if t0 >= 0 {
                        assert((t0 as i128) as int == t0);
                    } else {
                        assert((t1 as i128) as int == t1);
                    }
                }
            }
        },
        Element::Plane(p) => {
            let denom = dot_raw(p.normal, ray.direction);
            if denom > EPSILON_RAW {
                let v = Vector3 {
                    x: Fixed { raw: (p.origin.x.raw - ray.origin.x.raw) as i128 },
                    y: Fixed { raw: (p.origin.y.raw - ray.origin.y.raw) as i128 },
                    z: Fixed { raw: (p.origin.z.raw - ray.origin.z.raw) as i128 },
                };
                lemma_dot_raw_le(v, p.normal, 9007199254740992, 4503599627370496,
                    9444732965739290427392);
                let vn = dot_raw(v, p.normal);
                lemma_tdiv(vn * SCALE, denom);
                let dist = tdiv(vn * SCALE, denom);
                if dist >= 0 {
                    if vn * SCALE >= 0 {
                        assert(dist * denom <= vn * SCALE);
                        assert(vn * SCALE <= 121699740836988295204030901650194432)
                            by (nonlinear_arith)
                            requires
                                -28334198897217871282176 <= vn <= 28334198897217871282176,
                                SCALE == 4294967296,
                        ;
                        assert(dist <= vn * SCALE) by (nonlinear_arith)
                            requires dist * denom <= vn * SCALE, dist >= 0, denom >= 1,
                        ;
                    } else {
                        assert(dist == 0);
                    }
                    assert((dist as i128) as int == dist);
                }
            }
        },
    }
}

/// Whether a possible hit is no closer than a given distance.
pub open spec fn no_closer(h: Option<Fixed>, d: Fixed) -> bool {
    match h {
        Option::None => true,
        Option::Some(t) => t.raw >= d.raw,
    }
}

/// Whether a possible hit is strictly farther than a given distance.
pub open spec fn strictly_farther(h: Option<Fixed>, d: Fixed) -> bool {
    match h {
        Option::None => true,
        Option::Some(t) => t.raw > d.raw,
    }
}

/// The trace returns the geometrically nearest hit: a miss means every
/// entry missed; a hit names an entry that hit at that distance, no
/// entry hit closer, and every earlier entry hit strictly farther (ties
/// go to the earliest entry).
pub proof fn lemma_trace_nearest(geo: Seq<Geometry>, ray: Ray, n: int)
    requires
        0 <= n <= geo.len(),
        n <= usize::MAX,
    ensures
        match trace_upto(geo, ray, n) {
            Option::None => forall|j: int|
                0 <= j < n ==> (#[trigger] geo[j].element.hit_spec(ray)) is None,
            Option::Some(pi) => {
                &&& 0 <= pi.object < n
                &&& geo[pi.object as int].element.hit_spec(ray) == Some(pi.distance)
                &&& forall|j: int|
                    0 <= j < n ==> no_closer(#[trigger] geo[j].element.hit_spec(ray), pi.distance)
                &&& forall|j: int|
                    0 <= j < pi.object ==> strictly_farther(
                        #[trigger] geo[j].element.hit_spec(ray),
                        pi.distance,
                    )
            },
        },
    decreases n,
{
    if n > 0 {
        lemma_trace_nearest(geo, ray, n - 1);
        let prev = trace_upto(geo, ray, n - 1);
        let cur = geo[n - 1].element.hit_spec(ray);
        assert(((n - 1) as usize) as int == n - 1);
        match cur {
            Option::None => {
                match prev {
                    Option::None => {
                        assert forall|j: int|
                            0 <= j < n implies (#[trigger] geo[j].element.hit_spec(
                            ray,
                        )) is None by {
                            if j < n - 1 {
                            }
                        }
                    },
                    Option::Some(pi) => {
                        assert forall|j: int|
                            0 <= j < n implies no_closer(
                            #[trigger] geo[j].element.hit_spec(ray),
                            pi.distance,
                        ) by {
                            if j < n - 1 {
                            }
                        }
                    },
                }
            },
            Option::Some(d) => {
                match prev {
                    Option::None => {
                        assert forall|j: int|
                            0 <= j < n implies no_closer(
                            #[trigger] geo[j].element.hit_spec(ray),
                            d,
                        ) by {
                            if j < n - 1 {
                            }
                        }
                        assert forall|j: int|
                            0 <= j < n - 1 implies strictly_farther(
                            #[trigger] geo[j].element.hit_spec(ray),
                            d,
                        ) by {
                        }
                    },
                    Option::Some(pi) => {
                        if d.raw < pi.distance.raw {
                            assert forall|j: int|
                                0 <= j < n implies no_closer(
                                #[trigger] geo[j].element.hit_spec(ray),
                                d,
                            ) by {
                                if j < n - 1 {
                                    assert(no_closer(geo[j].element.hit_spec(ray), pi.distance));
                                }
                            }
                            assert forall|j: int|
                                0 <= j < n - 1 implies strictly_farther(
                                #[trigger] geo[j].element.hit_spec(ray),
                                d,
                            ) by {
                                assert(no_closer(geo[j].element.hit_spec(ray), pi.distance));
                            }
                        } else {
                            assert forall|j: int|
                                0 <= j < n implies no_closer(
                                #[trigger] geo[j].element.hit_spec(ray),
                                pi.distance,
                            ) by {
                                if j < n - 1 {
                                }
                            }
                        }
                    },
                }
            },
        }
    }
}

} // verus!
