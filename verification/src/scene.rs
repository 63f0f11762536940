//! Scene description: colors, primitives, and nearest-hit tracing.

use vstd::prelude::*;
use crate::fixed::{
    Fixed, SCALE, ok_raw, tdiv, sqrt_raw, lemma_tdiv_le, lemma_sqrt_raw_le_bound,
};
use crate::gamma::{decode_byte, decode_raw, encode_byte, byte_for};
use crate::point::Point;
use crate::vector::{Vector3, dot_raw, lemma_dot_raw_le};
use crate::rendering::Ray;

verus! {

/// Scene coordinates (centers, plane origins, normals, radii) are kept
/// within `COORD_LIMIT == 2^52` raw, about a million spatial units.
pub const COORD_LIMIT: i128 = 4503599627370496;

/// Ray directions are near unit length; `DIR_LIMIT == 2^34` (four units)
/// is the slack the intersection arithmetic is sized for.
pub const DIR_LIMIT: i128 = 17179869184;

/// The one-sided plane test's tolerance, `1e-6` truncated to the grid.
pub const EPSILON_RAW: i128 = 4294;

/// Largest raster dimension the fixed-point camera arithmetic is sized for.
pub const MAX_DIM: u32 = 4096;

/// Largest field-of-view tangent accepted: `1024 * SCALE`, which keeps
/// sensor coordinates far from the representable edge.
pub const FOV_LIMIT: i128 = 4398046511104;

/// A linear-light RGB color.  Channels are unconstrained during
/// arithmetic; `clamp` restricts them to `[0, 1]` (raw `[0, SCALE]`).
#[derive(Clone, Copy, Debug, PartialEq, Eq, Structural)]
pub struct Color {
    pub red: Fixed,
    pub green: Fixed,
    pub blue: Fixed,
}

/// An 8-bit RGBA display pixel.
#[derive(Clone, Copy, Debug, PartialEq, Eq, Structural)]
pub struct Rgba {
    pub r: u8,
    pub g: u8,
    pub b: u8,
    pub a: u8,
}

/// One channel clamped to `[0, SCALE]` raw.
pub open spec fn clamp_raw(c: int) -> int {
    if c > SCALE {
        SCALE as int
    } else if c < 0 {
        0
    } else {
        c
    }
}

impl Color {
    /// Every channel restricted to `[0, 1]`.
    pub fn clamp(&self) -> (r: Color)
        ensures
            r.red.raw == clamp_raw(self.red.raw as int),
            r.green.raw == clamp_raw(self.green.raw as int),
            r.blue.raw == clamp_raw(self.blue.raw as int),
    {
        Color {
            red: clamp_channel(self.red),
            green: clamp_channel(self.green),
            blue: clamp_channel(self.blue),
        }
    }

    /// Gamma-encode and quantize each channel to a display byte; alpha is
    /// fully opaque.  Out-of-range channels saturate at 0 and 255.
    pub fn to_rgba(&self) -> (r: Rgba)
        ensures
            r.r as int == byte_for(self.red.raw as int),
            r.g as int == byte_for(self.green.raw as int),
            r.b as int == byte_for(self.blue.raw as int),
            r.a == 255,
    {
        Rgba {
            r: encode_byte(self.red.raw),
            g: encode_byte(self.green.raw),
            b: encode_byte(self.blue.raw),
            a: 255,
        }
    }

    /// Decode a display pixel back to linear light (the alpha channel is
    /// ignored).
    pub fn from_rgba(rgba: Rgba) -> (r: Color)
        ensures
            r.red.raw as int == decode_raw(rgba.r as int),
            r.green.raw as int == decode_raw(rgba.g as int),
            r.blue.raw as int == decode_raw(rgba.b as int),
    {
        Color {
            red: Fixed { raw: decode_byte(rgba.r) as i128 },
            green: Fixed { raw: decode_byte(rgba.g) as i128 },
            blue: Fixed { raw: decode_byte(rgba.b) as i128 },
        }
    }

    /// Component-wise product of two colors, truncating on the grid.
    pub fn mul(self, other: Color) -> (r: Color)
        requires
            ok_raw(self.red.raw as int),
            ok_raw(self.green.raw as int),
            ok_raw(self.blue.raw as int),
            ok_raw(other.red.raw as int),
            ok_raw(other.green.raw as int),
            ok_raw(other.blue.raw as int),
            ok_raw(self.red.raw * other.red.raw),
            ok_raw(self.green.raw * other.green.raw),
            ok_raw(self.blue.raw * other.blue.raw),
        ensures
            r.red.raw == tdiv(self.red.raw * other.red.raw, SCALE as int),
            r.green.raw == tdiv(self.green.raw * other.green.raw, SCALE as int),
            r.blue.raw == tdiv(self.blue.raw * other.blue.raw, SCALE as int),
    {
        Color {
            red: self.red.mul(other.red),
            green: self.green.mul(other.green),
            blue: self.blue.mul(other.blue),
        }
    }

    /// Every channel scaled by a fixed-point factor, truncating.
    pub fn scale(self, s: Fixed) -> (r: Color)
        requires
            ok_raw(self.red.raw as int),
            ok_raw(self.green.raw as int),
            ok_raw(self.blue.raw as int),
            ok_raw(s.raw as int),
            ok_raw(self.red.raw * s.raw),
            ok_raw(self.green.raw * s.raw),
            ok_raw(self.blue.raw * s.raw),
        ensures
            r.red.raw == tdiv(self.red.raw * s.raw, SCALE as int),
            r.green.raw == tdiv(self.green.raw * s.raw, SCALE as int),
            r.blue.raw == tdiv(self.blue.raw * s.raw, SCALE as int),
    {
        Color { red: self.red.mul(s), green: self.green.mul(s), blue: self.blue.mul(s) }
    }

    /// Exact component-wise sum.
    pub fn add(self, other: Color) -> (r: Color)
        requires
            ok_raw(self.red.raw + other.red.raw),
            ok_raw(self.green.raw + other.green.raw),
            ok_raw(self.blue.raw + other.blue.raw),
        ensures
            r.red.raw == self.red.raw + other.red.raw,
            r.green.raw == self.green.raw + other.green.raw,
            r.blue.raw == self.blue.raw + other.blue.raw,
    {
        Color {
            red: self.red.add(other.red),
            green: self.green.add(other.green),
            blue: self.blue.add(other.blue),
        }
    }
}

/// One channel clamped to `[0, SCALE]` raw.
fn clamp_channel(c: Fixed) -> (r: Fixed)
    ensures
        r.raw == clamp_raw(c.raw as int),
{
    if c.raw > SCALE {
        Fixed { raw: SCALE }
    } else if c.raw < 0 {
        Fixed { raw: 0 }
    } else {
        c
    }
}

/// A sphere: a center and a radius.
#[derive(Clone, Copy, Debug, PartialEq, Eq, Structural)]
pub struct Sphere {
    pub center: Point,
    pub radius: Fixed,
}

/// A plane through `origin` with the given normal; visible from one side
/// only (hits require the ray to run against the normal's side, see
/// `Element::hit_spec`).
#[derive(Clone, Copy, Debug, PartialEq, Eq, Structural)]
pub struct Plane {
    pub origin: Point,
    pub normal: Vector3,
}

/// A scene entry: a primitive paired with its static color.
#[derive(Clone, Copy, Debug, PartialEq, Eq, Structural)]
pub struct Geometry {
    pub element: Element,
    pub color: Color,
}

/// A drawable primitive: a closed sum of the shape kinds, each with its
/// own ray-intersection test.
#[derive(Clone, Copy, Debug, PartialEq, Eq, Structural)]
pub enum Element {
    Sphere(Sphere),
    Plane(Plane),
}

/// Rays the intersection arithmetic is sized for: origin within the
/// scene's coordinate range, direction near unit length.
pub open spec fn ray_ok(ray: Ray) -> bool {
    &&& ray.origin.bounded(COORD_LIMIT as int)
    &&& ray.direction.bounded(DIR_LIMIT as int)
}

impl Element {
    /// All coordinates of the primitive within the representable range.
    pub open spec fn in_range(self) -> bool {
        match self {
            Element::Sphere(s) => {
                &&& s.center.bounded(COORD_LIMIT as int)
                &&& 0 <= s.radius.raw <= COORD_LIMIT
            },
            Element::Plane(p) => {
                &&& p.origin.bounded(COORD_LIMIT as int)
                &&& p.normal.bounded(COORD_LIMIT as int)
            },
        }
    }

    /// The primitive would never produce a degenerate intersection: the
    /// sphere has positive radius, the plane a normal that is nonzero on
    /// the grid.
    pub open spec fn non_degenerate(self) -> bool {
        match self {
            Element::Sphere(s) => s.radius.raw >= 1,
            Element::Plane(p) => dot_raw(p.normal, p.normal) >= 1,
        }
    }

    /// Where (if anywhere) the ray first meets this primitive: the exact
    /// fixed-point distance along the ray.
    ///
    /// For a sphere, the geometric method: with `l` the vector from the
    /// ray origin to the center, `adj = l . dir` and
    /// `d2 = l . l - adj^2` (the squared perpendicular distance from the
    /// center to the ray's line), the ray misses when `d2 > radius^2`;
    /// otherwise the candidates are `adj -/+ sqrt(radius^2 - d2)` and the
    /// hit is the smaller non-negative one — `t1`, the exit point, when
    /// the origin lies inside the sphere — or a miss when both lie behind
    /// the origin.
    ///
    /// For a plane, the one-sided test: a hit requires
    /// `denom = normal . dir > EPSILON_RAW`, and then a non-negative
    /// distance `((origin - ray.origin) . normal) / denom`.
    pub open spec fn hit_spec(self, ray: Ray) -> Option<Fixed> {
        match self {
            Element::Sphere(s) => {
                let l = Vector3 {
                    x: Fixed { raw: (s.center.x.raw - ray.origin.x.raw) as i128 },
                    y: Fixed { raw: (s.center.y.raw - ray.origin.y.raw) as i128 },
                    z: Fixed { raw: (s.center.z.raw - ray.origin.z.raw) as i128 },
                };
                let adj = dot_raw(l, ray.direction);
                let d2 = dot_raw(l, l) - tdiv(adj * adj, SCALE as int);
                let r2 = tdiv(s.radius.raw * s.radius.raw, SCALE as int);
                if d2 > r2 {
                    None
                } else {
                    let thc = sqrt_raw((r2 - d2) * SCALE);
                    let t0 = adj - thc;
                    let t1 = adj + thc;
                    if t0 < 0 && t1 < 0 {
                        None
                    } else if t0 >= 0 {
                        Some(Fixed { raw: t0 as i128 })
                    } else {
                        Some(Fixed { raw: t1 as i128 })
                    }
                }
            },
            Element::Plane(p) => {
                let denom = dot_raw(p.normal, ray.direction);
                if denom > EPSILON_RAW {
                    let v = Vector3 {
                        x: Fixed { raw: (p.origin.x.raw - ray.origin.x.raw) as i128 },
                        y: Fixed { raw: (p.origin.y.raw - ray.origin.y.raw) as i128 },
                        z: Fixed { raw: (p.origin.z.raw - ray.origin.z.raw) as i128 },
                    };
                    let dist = tdiv(dot_raw(v, p.normal) * SCALE, denom);
                    if dist >= 0 {
                        Some(Fixed { raw: dist as i128 })
                    } else {
                        None
                    }
                } else {
                    None
                }
            },
        }
    }
}

/// The single intersection contract every primitive implements.
pub trait Intersectable {
    /// Which rays the implementation's arithmetic is sized for.
    spec fn ray_admissible(&self, ray: Ray) -> bool;

    /// The exact distance (if any) at which the ray meets the shape.
    spec fn hit(&self, ray: Ray) -> Option<Fixed>;

    /// Intersect the shape with a ray: the nearest non-negative distance
    /// along the ray, or `None` for a miss.
    fn intersect(&self, ray: &Ray) -> (r: Option<Fixed>)
        requires
            self.ray_admissible(*ray),
        ensures
            r == self.hit(*ray),
    ;
}

impl Intersectable for Element {
    open spec fn ray_admissible(&self, ray: Ray) -> bool {
        self.in_range() && ray_ok(ray)
    }

    open spec fn hit(&self, ray: Ray) -> Option<Fixed> {
        self.hit_spec(ray)
    }

    fn intersect(&self, ray: &Ray) -> (r: Option<Fixed>) {
        match self {
            Element::Sphere(sphere) => {
                let l: Vector3 = sphere.center.sub(ray.origin);
                proof {
                    // `l` stays within 2^53 raw (two coordinates within
                    // 2^52 each), so `adj` fits in 3 * 2^55 and `ll` in
                    // 3 * 2^74 raw units
                    lemma_dot_raw_le(l, ray.direction, 9007199254740992, DIR_LIMIT as int,
                        36028797018963968);
                    lemma_dot_raw_le(l, l, 9007199254740992, 9007199254740992,
                        18889465931478580854784);
                }
                let adj = l.dot(ray.direction);
                let ll = l.dot(l);
                proof {
                    // adj^2 <= 2^114, so the squared-distance term fits
                    // in 2^82 raw; the squared radius in 2^72 raw
                    assert(0 <= adj.raw * adj.raw
                        <= 20769187434139310514121985316880384) by (nonlinear_arith)
                        requires
                            -108086391056891904 <= adj.raw <= 108086391056891904,
                    ;
                    lemma_tdiv_le(adj.raw * adj.raw, SCALE as int, 4835703278458516698824704);
                    assert(0 <= sphere.radius.raw * sphere.radius.raw
                        <= 20282409603651670423947251286016) by (nonlinear_arith)
                        requires
                            0 <= sphere.radius.raw <= 4503599627370496,
                    ;
                    lemma_tdiv_le(sphere.radius.raw * sphere.radius.raw, SCALE as int,
                        4722366482869645213696);
                }
                let adjsq = adj.mul(adj);
                let d2 = ll.sub(adjsq);
                let radius2 = sphere.radius.mul(sphere.radius);
                if d2.raw > radius2.raw {
                    return None;
                }
                let diff = radius2.sub(d2);
                proof {
                    // the radicand stays below 2^116, so `thc` below 2^58
                    lemma_sqrt_raw_le_bound(diff.raw * SCALE, 288230376151711744);
                }
                let thc = diff.sqrt();
                let t0 = adj.sub(thc);
                let t1 = adj.add(thc);
                if t0.raw < 0 && t1.raw < 0 {
                    return None;
                }
                if t0.raw >= 0 {
                    Some(t0)
                } else {
                    Some(t1)
                }
            },
            Element::Plane(plane) => {
                proof {
                    lemma_dot_raw_le(plane.normal, ray.direction, COORD_LIMIT as int,
                        DIR_LIMIT as int, 36028797018963968);
                }
                let denom = plane.normal.dot(ray.direction);
                if denom.raw > EPSILON_RAW {
                    let v = plane.origin.sub(ray.origin);
                    proof {
                        // `v . normal` stays within 3 * 2^73 raw units
                        lemma_dot_raw_le(v, plane.normal, 9007199254740992, COORD_LIMIT as int,
                            9444732965739290427392);
                    }
                    let vn = v.dot(plane.normal);
                    let distance = vn.div(denom);
                    if distance.raw >= 0 {
                        return Some(distance);
                    }
                    None
                } else {
                    None
                }
            },
        }
    }
}

/// The result of a successful trace: the distance to the nearest hit and
/// the index of the hit entry in the scene's geometry list.
#[derive(Clone, Copy, Debug, PartialEq, Eq, Structural)]
pub struct Intersection {
    pub distance: Fixed,
    pub object: usize,
}

impl Intersection {
    /// Pair a distance with the index of the object it was measured to.
    pub fn new(d: Fixed, o: usize) -> (r: Intersection)
        ensures
            r.distance == d,
            r.object == o,
    {
        Intersection { distance: d, object: o }
    }
}

/// The nearest hit among the first `n` geometry entries, ties going to
/// the earliest entry.
pub open spec fn trace_upto(geo: Seq<Geometry>, ray: Ray, n: int) -> Option<Intersection>
    decreases n,
{
    if n <= 0 {
        None
    } else {
        let prev = trace_upto(geo, ray, n - 1);
        match geo[n - 1].element.hit_spec(ray) {
            Option::None => prev,
            Option::Some(d) => match prev {
                Option::None => Some(Intersection { distance: d, object: (n - 1) as usize }),
                Option::Some(pi) => if d.raw < pi.distance.raw {
                    Some(Intersection { distance: d, object: (n - 1) as usize })
                } else {
                    Some(pi)
                },
            },
        }
    }
}

/// The error a scene fails validation with, detected before any pixel is
/// rendered.
#[derive(Clone, Copy, Debug, PartialEq, Eq, Structural)]
pub enum ConfigError {
    /// Width and height must satisfy `0 < height < width <= MAX_DIM`.
    InvalidDimensions,
    /// The field-of-view tangent must be positive and at most `FOV_LIMIT`.
    FovOutOfRange,
    /// A primitive has a coordinate outside the representable range.
    OutOfRangeGeometry,
    /// A sphere has a non-positive radius.
    DegenerateSphere,
    /// A plane has a zero-length normal on the grid.
    DegeneratePlane,
}

/// A scene: raster dimensions, the camera's half-angle tangent, and the
/// colored geometry to draw, in order.
pub struct Scene {
    pub width: u32,
    pub height: u32,
    /// The tangent of half the field of view, as a fixed-point number;
    /// positive exactly when the field of view lies in (0, 180) degrees.
    pub fov_adj: Fixed,
    pub geometry: Vec<Geometry>,
}

impl Scene {
    /// The raster dimensions the projection is defined for: the aspect
    /// arithmetic needs `width > height`, the fixed-point camera needs
    /// `width <= MAX_DIM`.
    pub open spec fn dims_ok(self) -> bool {
        0 < self.height < self.width <= MAX_DIM
    }

    /// The camera's field of view is in range.
    pub open spec fn fov_ok(self) -> bool {
        0 < self.fov_adj.raw <= FOV_LIMIT
    }

    /// Every primitive is representable and non-degenerate.
    pub open spec fn geometry_ok(self) -> bool {
        &&& forall|i: int|
            0 <= i < self.geometry@.len() ==> #[trigger] self.geometry@[i].element.in_range()
        &&& forall|i: int|
            0 <= i < self.geometry@.len()
                ==> #[trigger] self.geometry@[i].element.non_degenerate()
    }

    /// A well-formed scene: what `validate` accepts and `render` renders.
    pub open spec fn wf(self) -> bool {
        self.dims_ok() && self.fov_ok() && self.geometry_ok()
    }

    /// Check the whole configuration before rendering: dimensions, field
    /// of view, then each primitive in order.  Succeeds exactly on
    /// well-formed scenes.
    #[verifier::rlimit(50)]
    pub fn validate(&self) -> (r: Result<(), ConfigError>)
        ensures
            r.is_ok() <==> self.wf(),
            r == Err::<(), ConfigError>(ConfigError::InvalidDimensions) ==> !self.dims_ok(),
            r == Err::<(), ConfigError>(ConfigError::FovOutOfRange) ==> !self.fov_ok(),
            r.is_err() && r != Err::<(), ConfigError>(ConfigError::InvalidDimensions) ==> self.dims_ok(),
            r.is_err() && r != Err::<(), ConfigError>(ConfigError::InvalidDimensions) && r
                != Err::<(), ConfigError>(ConfigError::FovOutOfRange) ==> !self.geometry_ok(),
    {
        if !(0 < self.height && self.height < self.width && self.width <= MAX_DIM) {
            return Err(ConfigError::InvalidDimensions);
        }
        if !(0 < self.fov_adj.raw && self.fov_adj.raw <= FOV_LIMIT) {
            return Err(ConfigError::FovOutOfRange);
        }
        let n = self.geometry.len();
        let mut i: usize = 0;
        while i < n
            invariant
                0 <= i <= n,
                n == self.geometry@.len(),
                self.dims_ok(),
                self.fov_ok(),
                forall|j: int|
                    0 <= j < i ==> #[trigger] self.geometry@[j].element.in_range(),
                forall|j: int|
                    0 <= j < i ==> #[trigger] self.geometry@[j].element.non_degenerate(),
            decreases n - i,
        {
            let g = self.geometry[i];
            proof {
                assert(g.element == self.geometry@[i as int].element);
            }
            match check_element(&g.element) {
                Ok(()) => {},
                Err(e) => {
                    proof {
                        assert(!(self.geometry@[i as int].element.in_range()
                            && self.geometry@[i as int].element.non_degenerate()));
                        assert(!self.geometry_ok());
                        assert(!self.wf());
                    }
                    return Err(e);
                },
            }
            proof {
                assert(self.geometry@[i as int].element.in_range());
                assert(self.geometry@[i as int].element.non_degenerate());
            }
            i = i + 1;
        }
        Ok(())
    }

    /// Trace a ray against every geometry entry and keep the nearest hit,
    /// ties going to the earliest entry; `None` when everything misses.
    pub fn trace(&self, ray: &Ray) -> (r: Option<Intersection>)
        requires
            self.geometry_ok(),
            ray_ok(*ray),
        ensures
            r == trace_upto(self.geometry@, *ray, self.geometry@.len() as int),
    {
        let n = self.geometry.len();
        let mut best: Option<Intersection> = None;
        let mut i: usize = 0;
        while i < n
            invariant
                0 <= i <= n,
                n == self.geometry@.len(),
                self.geometry_ok(),
                ray_ok(*ray),
                best == trace_upto(self.geometry@, *ray, i as int),
            decreases n - i,
        {
            let hit = self.geometry[i].element.intersect(ray);
            match hit {
                Option::None => {},
                Option::Some(d) => {
                    match best {
                        Option::None => {
                            best = Some(Intersection::new(d, i));
                        },
                        Option::Some(pi) => {
                            if d.raw < pi.distance.raw {
                                best = Some(Intersection::new(d, i));
                            }
                        },
                    }
                },
            }
            i = i + 1;
        }
        best
    }
}

/// One primitive's validation: coordinates in range, then non-degeneracy.
fn check_element(e: &Element) -> (r: Result<(), ConfigError>)
    ensures
        r.is_ok() <==> (e.in_range() && e.non_degenerate()),
        r == Err::<(), ConfigError>(ConfigError::OutOfRangeGeometry) ==> !e.in_range(),
        r.is_err() ==> (r == Err::<(), ConfigError>(ConfigError::OutOfRangeGeometry) || r
            == Err::<(), ConfigError>(ConfigError::DegenerateSphere) || r == Err::<(
        ), ConfigError>(ConfigError::DegeneratePlane)),
{
    match e {
        Element::Sphere(s) => {
            if !(in_coord_range(s.center.x) && in_coord_range(s.center.y) && in_coord_range(
                s.center.z,
            ) && 0 <= s.radius.raw && s.radius.raw <= COORD_LIMIT) {
                return Err(ConfigError::OutOfRangeGeometry);
            }
            if s.radius.raw < 1 {
                return Err(ConfigError::DegenerateSphere);
            }
            Ok(())
        },
        Element::Plane(p) => {
            if !(in_coord_range(p.origin.x) && in_coord_range(p.origin.y) && in_coord_range(
                p.origin.z,
            ) && in_coord_range(p.normal.x) && in_coord_range(p.normal.y) && in_coord_range(
                p.normal.z,
            )) {
                return Err(ConfigError::OutOfRangeGeometry);
            }
            let nn = p.normal.dot(p.normal);
            if nn.raw < 1 {
                return Err(ConfigError::DegeneratePlane);
            }
            Ok(())
        },
    }
}

/// Whether one coordinate lies within the representable scene range.
fn in_coord_range(c: Fixed) -> (r: bool)
    ensures
        r == (-COORD_LIMIT <= c.raw <= COORD_LIMIT),
{
    -COORD_LIMIT <= c.raw && c.raw <= COORD_LIMIT
}

} // verus!
