use raytracer::fixed::{Fixed, SCALE};
use raytracer::point::Point;
use raytracer::scene::{
    Color, ConfigError, Element, Geometry, Intersectable, Plane, Rgba, Scene, Sphere,
};
use raytracer::rendering::Ray;
use raytracer::vector::Vector3;

fn fx(v: i64) -> Fixed {
    Fixed::from_int(v)
}

fn vec3(x: i64, y: i64, z: i64) -> Vector3 {
    Vector3 { x: fx(x), y: fx(y), z: fx(z) }
}

fn pt(x: i64, y: i64, z: i64) -> Point {
    Point { x: fx(x), y: fx(y), z: fx(z) }
}

fn axis_ray() -> Ray {
    // from the origin straight down the optical axis
    Ray { origin: Point::zero(), direction: vec3(0, 0, -1) }
}

#[test]
fn fixed_from_int_and_ratio() {
    assert_eq!(fx(1).raw, SCALE);
    assert_eq!(fx(-2).raw, -2 * SCALE);
    assert_eq!(Fixed::from_ratio(1, 5).raw, SCALE / 5);
    assert_eq!(Fixed::from_ratio(-1, 2).raw, -(SCALE / 2));
    assert_eq!(Fixed::zero().raw, 0);
    assert_eq!(Fixed::one().raw, SCALE);
}

#[test]
fn fixed_arithmetic_is_exact_on_integers() {
    assert_eq!(fx(3).add(fx(4)), fx(7));
    assert_eq!(fx(3).sub(fx(10)), fx(-7));
    assert_eq!(fx(6).mul(fx(7)), fx(42));
    assert_eq!(fx(-6).mul(fx(7)), fx(-42));
    assert_eq!(fx(42).div(fx(6)), fx(7));
    assert_eq!(fx(-42).div(fx(6)), fx(-7));
    assert_eq!(fx(3).neg(), fx(-3));
}

#[test]
fn fixed_mul_quarters() {
    let half = Fixed::from_ratio(1, 2);
    let quarter = Fixed::from_ratio(1, 4);
    assert_eq!(half.mul(half), quarter);
}

#[test]
fn fixed_sqrt_of_perfect_squares() {
    assert_eq!(fx(0).sqrt(), fx(0));
    assert_eq!(fx(1).sqrt(), fx(1));
    assert_eq!(fx(4).sqrt(), fx(2));
    assert_eq!(fx(25).sqrt(), fx(5));
    let quarter = Fixed::from_ratio(1, 4);
    assert_eq!(quarter.sqrt(), Fixed::from_ratio(1, 2));
}

#[test]
fn vector_dot_and_length() {
    let d = vec3(1, 2, 3).dot(vec3(4, 5, 6));
    assert_eq!(d, fx(32));
    assert_eq!(vec3(3, 4, 0).length(), fx(5));
}

#[test]
fn vector_normalize_axis_is_exact() {
    assert_eq!(vec3(0, 0, -1).normalize(), vec3(0, 0, -1));
    assert_eq!(vec3(0, 7, 0).normalize(), vec3(0, 1, 0));
}

#[test]
fn vector_normalize_three_four_five() {
    let n = vec3(3, 4, 0).normalize();
    // 3/5 and 4/5, truncated on the 2^-32 grid
    assert_eq!(n.x.raw, 3 * SCALE / 5);
    assert_eq!(n.y.raw, 4 * SCALE / 5);
    assert_eq!(n.z.raw, 0);
}

#[test]
fn point_arithmetic() {
    assert_eq!(Point::zero(), pt(0, 0, 0));
    assert_eq!(Point::from_one(fx(2)), pt(2, 2, 2));
    assert_eq!(pt(1, 2, 3).add(vec3(10, 20, 30)), pt(11, 22, 33));
    assert_eq!(pt(1, 2, 3).sub(pt(0, 0, 5)), vec3(1, 2, -2));
}

#[test]
fn sphere_hit_through_center_distance_is_center_minus_radius() {
    // origin at distance 5 from the center, radius 1: hit at 5 - 1 = 4
    let e = Element::Sphere(Sphere { center: pt(0, 0, -5), radius: fx(1) });
    assert_eq!(e.intersect(&axis_ray()), Some(fx(4)));
}

#[test]
fn sphere_miss_when_pointing_away() {
    // same sphere, ray pointing in the opposite direction
    let e = Element::Sphere(Sphere { center: pt(0, 0, -5), radius: fx(1) });
    let away = Ray { origin: Point::zero(), direction: vec3(0, 0, 1) };
    assert_eq!(e.intersect(&away), None);
}

#[test]
fn sphere_miss_off_axis() {
    // perpendicular distance 10 from the ray's line, radius 1
    let e = Element::Sphere(Sphere { center: pt(0, 10, -5), radius: fx(1) });
    assert_eq!(e.intersect(&axis_ray()), None);
}

#[test]
fn sphere_entry_from_inside_returns_exit_point() {
    // origin inside the sphere: t0 lies behind the origin, the hit is t1
    let e = Element::Sphere(Sphere { center: pt(0, 0, -1), radius: fx(2) });
    assert_eq!(e.intersect(&axis_ray()), Some(fx(3)));
}

#[test]
fn plane_hit_straight_ahead() {
    let e = Element::Plane(Plane { origin: pt(0, 0, -3), normal: vec3(0, 0, -1) });
    assert_eq!(e.intersect(&axis_ray()), Some(fx(3)));
}

#[test]
fn plane_one_sided_no_hit_when_normal_faces_camera() {
    // the ray's line crosses the plane, but the normal points toward the
    // camera: denom <= 0, so the one-sided test reports a miss
    let e = Element::Plane(Plane { origin: pt(0, 0, -3), normal: vec3(0, 0, 1) });
    assert_eq!(e.intersect(&axis_ray()), None);
}

#[test]
fn plane_behind_origin_is_a_miss() {
    let e = Element::Plane(Plane { origin: pt(0, 0, 3), normal: vec3(0, 0, -1) });
    assert_eq!(e.intersect(&axis_ray()), None);
}

#[test]
fn color_clamp_restricts_channels() {
    let c = Color { red: Fixed::from_ratio(-1, 2), green: Fixed::from_ratio(1, 2), blue: fx(2) };
    let k = c.clamp();
    assert_eq!(k.red, Fixed::zero());
    assert_eq!(k.green, Fixed::from_ratio(1, 2));
    assert_eq!(k.blue, Fixed::one());
    // idempotence on concrete values
    assert_eq!(k.clamp(), k);
}

#[test]
fn color_arithmetic() {
    let a = Color { red: Fixed::from_ratio(1, 2), green: fx(1), blue: fx(0) };
    let b = Color { red: Fixed::from_ratio(1, 2), green: Fixed::from_ratio(1, 4), blue: fx(1) };
    let m = a.mul(b);
    assert_eq!(m.red, Fixed::from_ratio(1, 4));
    assert_eq!(m.green, Fixed::from_ratio(1, 4));
    assert_eq!(m.blue, fx(0));
    let s = a.scale(Fixed::from_ratio(1, 2));
    assert_eq!(s.red, Fixed::from_ratio(1, 4));
    assert_eq!(s.green, Fixed::from_ratio(1, 2));
    assert_eq!(s.blue, fx(0));
    let t = a.add(b);
    assert_eq!(t.red, fx(1));
    assert_eq!(t.green, Fixed::from_ratio(5, 4));
    assert_eq!(t.blue, fx(1));
}

#[test]
fn gamma_encoding_of_known_channels() {
    let c = Color { red: Fixed::from_ratio(1, 5), green: fx(1), blue: fx(0) };
    let px = c.to_rgba();
    // 0.2^(1/2.2) * 255 truncates to 122
    assert_eq!(px, Rgba { r: 122, g: 255, b: 0, a: 255 });
}

#[test]
fn gamma_encoding_saturates_out_of_range() {
    let c = Color { red: Fixed::from_ratio(-1, 2), green: fx(3), blue: fx(0) };
    let px = c.to_rgba();
    assert_eq!(px.r, 0);
    assert_eq!(px.g, 255);
    assert_eq!(px.b, 0);
}

#[test]
fn gamma_round_trip_stays_within_one_step() {
    let c = Color { red: Fixed::from_ratio(1, 5), green: fx(1), blue: fx(0) };
    let back = Color::from_rgba(c.to_rgba());
    // the decoded value is the lower edge of the original's cell
    assert_eq!(back.red.raw, 848326613);
    assert!(back.red.raw <= c.red.raw);
    // the next byte's cell already lies above the original
    assert!(c.red.raw < 863699582);
    assert_eq!(back.green.raw, SCALE);
    assert_eq!(back.blue.raw, 0);
}

#[test]
fn gamma_encoding_boundary_is_inclusive() {
    // a channel exactly on a cell's lower edge encodes to that cell's
    // byte; one grid step below it falls into the previous cell
    let edge = Fixed::from_raw(848326613);
    let below = Fixed::from_raw(848326612);
    let on = Color { red: edge, green: edge, blue: edge };
    let under = Color { red: below, green: below, blue: below };
    assert_eq!(on.to_rgba().r, 122);
    assert_eq!(under.to_rgba().r, 121);
    // and decoding those bytes returns the cells' lower edges
    assert_eq!(Color::from_rgba(on.to_rgba()).red.raw, 848326613);
    assert_eq!(Color::from_rgba(under.to_rgba()).red.raw, 833104113);
}

#[test]
fn validate_accepts_a_good_scene_and_names_each_fault() {
    let good = Scene {
        width: 4,
        height: 3,
        fov_adj: fx(1),
        geometry: vec![
            Geometry {
                element: Element::Sphere(Sphere { center: pt(0, 0, -5), radius: fx(1) }),
                color: Color { red: fx(1), green: fx(1), blue: fx(1) },
            },
        ],
    };
    assert_eq!(good.validate(), Ok(()));

    let square = Scene { width: 3, height: 3, fov_adj: fx(1), geometry: vec![] };
    assert_eq!(square.validate(), Err(ConfigError::InvalidDimensions));

    let no_fov = Scene { width: 4, height: 3, fov_adj: fx(0), geometry: vec![] };
    assert_eq!(no_fov.validate(), Err(ConfigError::FovOutOfRange));

    let far = Scene {
        width: 4,
        height: 3,
        fov_adj: fx(1),
        geometry: vec![
            Geometry {
                element: Element::Sphere(
                    Sphere { center: pt(0, 0, -9000000), radius: fx(1) },
                ),
                color: Color { red: fx(1), green: fx(1), blue: fx(1) },
            },
        ],
    };
    assert_eq!(far.validate(), Err(ConfigError::OutOfRangeGeometry));

    let flat = Scene {
        width: 4,
        height: 3,
        fov_adj: fx(1),
        geometry: vec![
            Geometry {
                element: Element::Sphere(Sphere { center: pt(0, 0, -5), radius: fx(0) }),
                color: Color { red: fx(1), green: fx(1), blue: fx(1) },
            },
        ],
    };
    assert_eq!(flat.validate(), Err(ConfigError::DegenerateSphere));

    let bad_plane = Scene {
        width: 4,
        height: 3,
        fov_adj: fx(1),
        geometry: vec![
            Geometry {
                element: Element::Plane(Plane { origin: pt(0, 0, -3), normal: vec3(0, 0, 0) }),
                color: Color { red: fx(1), green: fx(1), blue: fx(1) },
            },
        ],
    };
    assert_eq!(bad_plane.validate(), Err(ConfigError::DegeneratePlane));
}
