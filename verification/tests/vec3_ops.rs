use raycast::rat::Rat;
use raycast::vec3::Vec3;

fn ri(n: i128) -> Rat {
    Rat::from_int(n)
}

fn vi(x: i128, y: i128, z: i128) -> Vec3 {
    Vec3::new(ri(x), ri(y), ri(z))
}

fn approx(r: Rat) -> f64 {
    r.num as f64 / r.den as f64
}

fn veq(a: Vec3, b: Vec3) -> bool {
    a.x().eq_rat(b.x()) && a.y().eq_rat(b.y()) && a.z().eq_rat(b.z())
}

#[test]
fn creation() {
    let v = vi(1, 2, 3);
    assert!(v.x().eq_rat(ri(1)));
    assert!(v.y().eq_rat(ri(2)));
    assert!(v.z().eq_rat(ri(3)));
    assert!(v.length_squared().eq_rat(ri(14)));
    assert!((approx(v.length()) - 3.7416575).abs() < 1e-3);

    let v0 = Vec3::zero();
    assert!(v0.x().eq_rat(ri(0)));
    assert!(v0.y().eq_rat(ri(0)));
    assert!(v0.z().eq_rat(ri(0)));
    assert!(v0.length_squared().eq_rat(ri(0)));
    assert!(approx(v0.length()) == 0.0);

    let v1 = Vec3::default();
    assert!(veq(v1, v0));
}

#[test]
fn new() {
    let v = Vec3::new(ri(1), ri(2), ri(3));
    assert!(v.x().eq_rat(ri(1)));
    assert!(v.y().eq_rat(ri(2)));
    assert!(v.z().eq_rat(ri(3)));
}

#[test]
fn math() {
    let v1 = vi(1, 2, 3);
    let v2 = vi(4, 5, 6);
    let v3 = vi(5, 7, 9);

    assert!(veq(v1.add(v2), v3));
    assert!(veq(v3.sub(v2), v1));
    assert!(veq(v1.mul(ri(2)), vi(2, 4, 6)));
    assert!(veq(v1.div(ri(2)), Vec3::new(Rat::new(1, 2), ri(1), Rat::new(3, 2))));

    let v4 = vi(1, 2, 3);
    let v5 = vi(4, 8, 12);
    assert!(veq(v4.mul(ri(4)), v5));

    let v6 = vi(1, 2, 3);
    let v7 = Vec3::new(Rat::new(1, 2), ri(1), Rat::new(3, 2));
    assert!(veq(v6.div(ri(2)), v7));
}

#[test]
fn dot() {
    let v1 = vi(1, 2, 3);
    let v2 = vi(4, 5, 6);
    assert!(v1.dot(&v2).eq_rat(ri(32)));
}

#[test]
fn cross() {
    let v1 = vi(1, 2, 3);
    let v2 = vi(4, 5, 6);
    assert!(veq(v1.cross(v2), vi(-3, 6, -3)));
}

#[test]
fn unit_vector() {
    let v1 = vi(1, 2, 3);
    let u = v1.unit_vector();
    assert!((approx(u.x()) - 0.26726124).abs() < 1e-3);
    assert!((approx(u.y()) - 0.5345225).abs() < 1e-3);
    assert!((approx(u.z()) - 0.8017837).abs() < 1e-3);
}

#[test]
fn unit_vector_length() {
    let v1 = vi(1, 2, 3);
    let u = v1.unit_vector();
    let len = (approx(u.x()).powi(2) + approx(u.y()).powi(2) + approx(u.z()).powi(2)).sqrt();
    assert!(len.round() == 1.0);
}

#[test]
fn test_add_impl() {
    let v1 = vi(1, 2, 3);
    let v2 = vi(4, 5, 6);
    let v3 = vi(5, 7, 9);

    assert!(veq(v1.add(v2), v3));
    assert!(veq(v2.add(v1), v3));
    assert!(veq(v1.add(v2), v2.add(v1)));
    assert!(veq(v1.add(v2), v3));
}

#[test]
fn test_sub_impl() {
    let v1 = vi(1, 2, 3);
    let v2 = vi(4, 5, 6);
    let v3 = vi(5, 7, 9);

    assert!(veq(v3.sub(v2), v1));
    assert!(veq(v3.sub(v1), v2));
    assert!(veq(v3.sub(v2).add(v2), v3));
    assert!(veq(v3.sub(v2), v1));
}

#[test]
fn test_mul_impl() {
    let v1 = vi(1, 2, 3);
    let v2 = vi(2, 4, 6);
    assert!(veq(v1.mul(ri(2)), v2));
    assert!(veq(Rat::from_int(2).scale_vec(v1), v2));
    assert!(veq(v1.mul(ri(2)), Rat::from_int(2).scale_vec(v1)));
    assert!(veq(v1.mul(ri(2)), v2));
}

#[test]
fn test_div_impl() {
    let v1 = vi(1, 2, 3);
    let v2 = Vec3::new(Rat::new(1, 2), ri(1), Rat::new(3, 2));
    assert!(veq(v1.div(ri(2)), v2));
    assert!(veq(v1.div(ri(2)).mul(ri(2)), v1));
    assert!(veq(v1.mul(Rat::new(1, 2)), v2));
    assert!(veq(v1.div(ri(2)), v2));
}

#[test]
fn add_commutes_and_associates() {
    let a = vi(7, -3, 11);
    let b = vi(-2, 9, 4);
    let c = vi(5, 5, -8);
    assert!(veq(a.add(b), b.add(a)));
    assert!(veq(a.add(b).add(c), a.add(b.add(c))));
}

#[test]
fn scale_then_divide_reproduces() {
    let v = vi(1, 2, 3);
    for k in [2i128, 3, 7, -5] {
        let kr = ri(k);
        assert!(veq(v.mul(kr).div(kr), v));
    }
}
