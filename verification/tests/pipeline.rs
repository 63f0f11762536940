use raytracer::fixed::{Fixed, SCALE};
use raytracer::point::Point;
use raytracer::render;
use raytracer::rendering::Ray;
use raytracer::scene::{Color, Element, Geometry, Intersection, Plane, Rgba, Scene, Sphere};
use raytracer::vector::Vector3;

fn fx(v: i64) -> Fixed {
    Fixed::from_int(v)
}

fn vec3(x: i64, y: i64, z: i64) -> Vector3 {
    Vector3 { x: fx(x), y: fx(y), z: fx(z) }
}

fn pt(x: i64, y: i64, z: i64) -> Point {
    Point { x: fx(x), y: fx(y), z: fx(z) }
}

fn sphere_entry(x: i64, y: i64, z: i64, radius: i64, color: Color) -> Geometry {
    Geometry { element: Element::Sphere(Sphere { center: pt(x, y, z), radius: fx(radius) }), color }
}

fn green() -> Color {
    Color { red: Fixed::from_ratio(1, 5), green: fx(1), blue: Fixed::from_ratio(1, 5) }
}

fn red() -> Color {
    Color { red: fx(1), green: fx(0), blue: fx(0) }
}

const BLACK: Rgba = Rgba { r: 0, g: 0, b: 0, a: 0 };

/// The gamma-encoded display value of `green()`: 0.2 encodes to byte 122.
const GREEN_PIXEL: Rgba = Rgba { r: 122, g: 255, b: 122, a: 255 };

#[test]
fn center_pixel_of_odd_raster_looks_down_the_axis() {
    // width 5, height 3, fov 90 degrees (half-angle tangent 1): the middle
    // pixel's sensor offsets vanish, so its prime ray is exactly (0,0,-1)
    let scene = Scene { width: 5, height: 3, fov_adj: fx(1), geometry: vec![] };
    let ray = Ray::create_prime(2, 1, &scene);
    assert_eq!(ray.origin, Point::zero());
    assert_eq!(ray.direction, vec3(0, 0, -1));
}

#[test]
fn prime_ray_of_an_off_center_pixel_is_exact() {
    // width 3, height 2, fov 90 degrees, pixel (1, 0): the horizontal
    // sensor offset vanishes, the vertical one is exactly one half, and
    // the normalized direction is (0, 1/2, -1) / sqrt(5/4) on the grid
    let scene = Scene { width: 3, height: 2, fov_adj: fx(1), geometry: vec![] };
    let ray = Ray::create_prime(1, 0, &scene);
    assert_eq!(ray.direction.x.raw, 0);
    assert_eq!(ray.direction.y.raw, 1920767767);
    assert_eq!(ray.direction.z.raw, -3841535534);
}

#[test]
fn corner_pixel_slopes_left_up_and_forward() {
    let scene = Scene { width: 5, height: 3, fov_adj: fx(1), geometry: vec![] };
    let ray = Ray::create_prime(0, 0, &scene);
    assert!(ray.direction.x.raw < 0);
    assert!(ray.direction.y.raw > 0);
    assert!(ray.direction.z.raw < 0);
}

#[test]
fn trace_reports_the_nearest_sphere() {
    // two spheres on the optical axis: the one at z = -3 wins, distance 2
    let scene = Scene {
        width: 5,
        height: 3,
        fov_adj: fx(1),
        geometry: vec![
            sphere_entry(0, 0, -5, 1, red()),
            sphere_entry(0, 0, -3, 1, green()),
        ],
    };
    let ray = Ray { origin: Point::zero(), direction: vec3(0, 0, -1) };
    let hit = scene.trace(&ray);
    assert_eq!(hit, Some(Intersection { distance: fx(2), object: 1 }));
    assert_eq!(scene.geometry[1].color, green());
}

#[test]
fn trace_breaks_ties_toward_the_earliest_entry() {
    let scene = Scene {
        width: 5,
        height: 3,
        fov_adj: fx(1),
        geometry: vec![
            sphere_entry(0, 0, -3, 1, red()),
            sphere_entry(0, 0, -3, 1, green()),
        ],
    };
    let ray = Ray { origin: Point::zero(), direction: vec3(0, 0, -1) };
    assert_eq!(scene.trace(&ray), Some(Intersection { distance: fx(2), object: 0 }));
}

#[test]
fn trace_reports_a_miss_when_everything_misses() {
    let scene = Scene {
        width: 5,
        height: 3,
        fov_adj: fx(1),
        geometry: vec![sphere_entry(0, 0, 5, 1, red())],
    };
    let ray = Ray { origin: Point::zero(), direction: vec3(0, 0, -1) };
    assert_eq!(scene.trace(&ray), None);
}

#[test]
fn render_rejects_an_invalid_scene_whole() {
    let scene = Scene { width: 3, height: 3, fov_adj: fx(1), geometry: vec![] };
    assert!(render(&scene).is_err());
}

#[test]
fn render_small_sphere_scene_is_all_background() {
    // 4 x 3, fov 90 degrees, unit sphere at distance 5: the sphere spans
    // about 11.5 degrees around the axis, while the nearest pixel centers
    // sit 18.4 degrees off it, so every pixel shows the background
    let scene = Scene {
        width: 4,
        height: 3,
        fov_adj: fx(1),
        geometry: vec![sphere_entry(0, 0, -5, 1, green())],
    };
    let img = render(&scene).unwrap();
    assert_eq!(img.len(), 12);
    for px in img.iter() {
        assert_eq!(*px, BLACK);
    }
}

#[test]
fn render_larger_sphere_colors_the_middle_pixels() {
    // the same scene with radius 2: the two middle-row center pixels hit
    // the sphere and show its gamma-encoded color; the corners stay black
    let scene = Scene {
        width: 4,
        height: 3,
        fov_adj: fx(1),
        geometry: vec![sphere_entry(0, 0, -5, 2, green())],
    };
    let img = render(&scene).unwrap();
    assert_eq!(img.len(), 12);
    assert_eq!(img[1 * 4 + 1], GREEN_PIXEL);
    assert_eq!(img[1 * 4 + 2], GREEN_PIXEL);
    assert_eq!(img[0], BLACK);
    assert_eq!(img[3], BLACK);
    assert_eq!(img[2 * 4 + 0], BLACK);
    assert_eq!(img[2 * 4 + 3], BLACK);
}

#[test]
fn render_plane_fills_what_it_faces() {
    // a floor-like plane three units ahead, facing the camera's rays:
    // every prime ray runs against its normal, so every pixel shows it
    let scene = Scene {
        width: 4,
        height: 3,
        fov_adj: fx(1),
        geometry: vec![
            Geometry {
                element: Element::Plane(
                    Plane { origin: pt(0, 0, -3), normal: vec3(0, 0, -1) },
                ),
                color: red(),
            },
        ],
    };
    let img = render(&scene).unwrap();
    for px in img.iter() {
        assert_eq!(*px, Rgba { r: 255, g: 0, b: 0, a: 255 });
    }
}

#[test]
fn render_one_sided_plane_is_invisible_from_behind() {
    // the same plane with its normal toward the camera: one-sided policy
    let scene = Scene {
        width: 4,
        height: 3,
        fov_adj: fx(1),
        geometry: vec![
            Geometry {
                element: Element::Plane(
                    Plane { origin: pt(0, 0, -3), normal: vec3(0, 0, 1) },
                ),
                color: red(),
            },
        ],
    };
    let img = render(&scene).unwrap();
    for px in img.iter() {
        assert_eq!(*px, BLACK);
    }
}

#[test]
fn nearest_object_wins_through_the_whole_pipeline() {
    // both spheres cover the middle pixels; the nearer one's color shows
    let scene = Scene {
        width: 4,
        height: 3,
        fov_adj: fx(1),
        geometry: vec![
            sphere_entry(0, 0, -7, 3, red()),
            sphere_entry(0, 0, -5, 2, green()),
        ],
    };
    let img = render(&scene).unwrap();
    assert_eq!(img[1 * 4 + 1], GREEN_PIXEL);
    assert_eq!(img[1 * 4 + 2], GREEN_PIXEL);
}
