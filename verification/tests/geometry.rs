use raycast::rat::Rat;
use raycast::vec3::Vec3;
use raycast::point::Point;
use raycast::ray::Ray;
use raycast::camera::{Camera, IMAGE_WIDTH, IMAGE_HEIGHT};
use raycast::sphere::Sphere;
use raycast::color::Color;
use raycast::render::{ray_color, render_pixel};

fn ri(n: i128) -> Rat {
    Rat::from_int(n)
}

fn vi(x: i128, y: i128, z: i128) -> Vec3 {
    Vec3::new(ri(x), ri(y), ri(z))
}

fn approx(r: Rat) -> f64 {
    r.num as f64 / r.den as f64
}

fn veq(a: Vec3, b: Vec3) -> bool {
    a.x().eq_rat(b.x()) && a.y().eq_rat(b.y()) && a.z().eq_rat(b.z())
}

#[test]
fn test_new() {
    let ray = Ray::new(Point::new(ri(1), ri(2), ri(3)), Vec3::new(ri(4), ri(5), ri(6)));
    assert!(ray.origin().x().eq_rat(ri(1)));
    assert!(ray.origin().y().eq_rat(ri(2)));
    assert!(ray.origin().z().eq_rat(ri(3)));
    assert!(ray.direction().x().eq_rat(ri(4)));
    assert!(ray.direction().y().eq_rat(ri(5)));
    assert!(ray.direction().z().eq_rat(ri(6)));
}

#[test]
fn test_at() {
    let ray = Ray::new(Point::new(ri(1), ri(2), ri(3)), Vec3::new(ri(4), ri(5), ri(6)));
    let point = ray.at(ri(2));
    assert!(point.x().eq_rat(ri(9)));
    assert!(point.y().eq_rat(ri(12)));
    assert!(point.z().eq_rat(ri(15)));
}

#[test]
fn ray_default_is_degenerate() {
    let ray = Ray::default();
    assert!(veq(*ray.origin(), Vec3::zero()));
    assert!(veq(*ray.direction(), Vec3::zero()));
}

#[test]
fn test_distance() {
    let point1 = Point::new(ri(1), ri(2), ri(3));
    let point2 = Point::new(ri(4), ri(5), ri(6));
    assert!((approx(point1.distance(&point2)) - 5.196152).abs() < 1e-3);
}

#[test]
fn test_distance_from_origin() {
    let point = Point::new(ri(1), ri(2), ri(3));
    assert!((approx(point.distance_from_origin()) - 3.7416575).abs() < 1e-3);
}

#[test]
fn sphere_hit_head_on() {
    let sphere = Sphere::new(vi(0, 0, -1), Rat::new(1, 2));
    let ray = Ray::new(Vec3::zero(), vi(0, 0, -1));
    assert!(sphere.hit(&ray));
}

#[test]
fn sphere_miss_lateral() {
    let sphere = Sphere::new(vi(0, 0, -1), Rat::new(1, 2));
    let ray = Ray::new(Vec3::zero(), vi(1, 1, -1));
    assert!(!sphere.hit(&ray));
}

#[test]
fn sphere_tangent_is_a_miss() {
    // distance from the ray to the center is exactly the radius, so the
    // discriminant is zero and the strict policy reports a miss
    let sphere = Sphere::new(vi(0, 0, -1), Rat::new(1, 2));
    let ray = Ray::new(Point::new(ri(0), Rat::new(1, 2), ri(0)), vi(0, 0, -1));
    assert!(!sphere.hit(&ray));
}

#[test]
fn camera_corner_rays() {
    let cam = Camera::default();
    let bl = cam.bottom_left();
    let low = cam.ray_for(ri(0), ri(0));
    assert!(veq(*low.origin(), Vec3::zero()));
    assert!(veq(*low.direction(), bl));
    let high = cam.ray_for(ri(1), ri(1));
    let top_right = bl.add(cam.horizontal()).add(cam.vertical());
    assert!(veq(*high.direction(), top_right));
    assert!(high.direction().x().eq_rat(Rat::new(16, 9)));
    assert!(high.direction().y().eq_rat(ri(1)));
    assert!(high.direction().z().eq_rat(ri(-1)));
}

#[test]
fn camera_viewport_shape() {
    let cam = Camera::default();
    assert!(cam.horizontal().x().eq_rat(Rat::new(32, 9)));
    assert!(cam.horizontal().y().eq_rat(ri(0)));
    assert!(cam.vertical().y().eq_rat(ri(2)));
    let bl = cam.bottom_left();
    assert!(bl.x().eq_rat(Rat::new(-16, 9)));
    assert!(bl.y().eq_rat(ri(-1)));
    assert!(bl.z().eq_rat(ri(-1)));
    assert_eq!(IMAGE_WIDTH, 800);
    assert_eq!(IMAGE_HEIGHT, 450);
}

#[test]
fn gradient_straight_up_is_sky_blue() {
    let ray = Ray::new(Vec3::zero(), vi(0, 1, 0));
    let c = ray_color(&ray);
    assert!(c.x().eq_rat(Rat::new(1, 2)));
    assert!(c.y().eq_rat(Rat::new(7, 10)));
    assert!(c.z().eq_rat(ri(1)));
}

#[test]
fn gradient_straight_down_is_white() {
    let ray = Ray::new(Vec3::zero(), vi(0, -1, 0));
    let c = ray_color(&ray);
    assert!(c.x().eq_rat(ri(1)));
    assert!(c.y().eq_rat(ri(1)));
    assert!(c.z().eq_rat(ri(1)));
}

#[test]
fn color_constants_to_rgb() {
    assert_eq!(Color::Black().to_rgb(), [0, 0, 0]);
    assert_eq!(Color::White().to_rgb(), [255, 255, 255]);
    assert_eq!(Color::Red().to_rgb(), [255, 0, 0]);
}

#[test]
fn to_rgb_scales_and_saturates() {
    let c = Color::new(Rat::new(1, 2), Rat::new(7, 10), Rat::new(1, 4));
    assert_eq!(c.to_rgb(), [128, 179, 64]);
    let wild = Color::new(ri(-1), ri(2), Rat::new(255, 256));
    assert_eq!(wild.to_rgb(), [0, 255, 255]);
}

#[test]
fn render_pixel_center_hits_sphere() {
    let cam = Camera::default();
    let sphere = Sphere::new(vi(0, 0, -1), Rat::new(1, 2));
    let p = render_pixel(&cam, &sphere, 400, 225);
    assert_eq!(p, [255, 0, 0]);
}

#[test]
fn render_pixel_corner_shows_background() {
    let cam = Camera::default();
    let sphere = Sphere::new(vi(0, 0, -1), Rat::new(1, 2));
    let p = render_pixel(&cam, &sphere, 0, 0);
    assert_ne!(p, [255, 0, 0]);
    assert_eq!(p[2], 255);
    assert!(p[0] > 200 && p[0] < 255);
    assert!(p[1] > p[0] / 2 && p[1] < 255);
}
