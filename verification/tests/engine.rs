use cgmath::InnerSpace;
use num_traits::ToPrimitive;

use raycast::cli::{Cli, CliArgError, CliPlan};
use raycast::mat::Mat4;
use raycast::model::{Model, Primitive, Transform};
use raycast::radical::{RadVec3, Radical};
use raycast::rat::Rat;
use raycast::raycast::{Ball, Clipped, IntersectResult, Plane, Ray};
use raycast::trackball::VirtualTrackball;
use raycast::vec3::Vec3;

fn rat_f64(r: &Rat) -> f64 {
    r.n.to_f64().unwrap() / r.d.to_f64().unwrap()
}

fn radical_f64(r: &Radical) -> f64 {
    rat_f64(&r.a) + rat_f64(&r.b) * rat_f64(&r.k).sqrt()
}

fn radvec_f64(v: &RadVec3) -> cgmath::Vector3<f64> {
    cgmath::Vector3::new(radical_f64(&v.x), radical_f64(&v.y), radical_f64(&v.z))
}

fn assert_radvec_ints(v: &RadVec3, x: i64, y: i64, z: i64) {
    let w = radvec_f64(v);
    assert_eq!(w.x, x as f64);
    assert_eq!(w.y, y as f64);
    assert_eq!(w.z, z as f64);
}

fn ray_ints(ex: i64, ey: i64, ez: i64, tx: i64, ty: i64, tz: i64) -> Ray {
    Ray { eye: Vec3::ints(ex, ey, ez), target: Vec3::ints(tx, ty, tz) }
}

#[test]
fn clip_point_test() {
    let plane = Plane { position: Vec3::ints(0, 0, 0), normal: Vec3::ints(0, 0, 1) };
    let point = Vec3::ints(1, 1, 1);
    match point.clip(&plane) {
        Clipped::Inside(p) => assert!(p.eq_val(&Vec3::ints(1, 1, 1))),
        Clipped::Outside(_) => panic!("point in the half-space must stay inside"),
    }
    let point = Vec3::ints(1, 1, -1);
    match point.clip(&plane) {
        Clipped::Inside(_) => panic!("point behind the plane must be outside"),
        Clipped::Outside(p) => assert!(p.eq_val(&Vec3::ints(1, 1, 0))),
    }
}

#[test]
fn ray_transform_test() {
    let ray = ray_ints(0, 0, 0, 0, 0, 5);
    let transformed = ray.transform(&Mat4::from_translation(&Vec3::ints(1, 1, 1)));
    assert!(transformed.eye.eq_val(&Vec3::ints(1, 1, 1)));
    assert!(transformed.target.eq_val(&Vec3::ints(1, 1, 6)));
}

#[test]
fn plane_intersect_test() {
    let plane = Plane { position: Vec3::ints(0, 0, 0), normal: Vec3::ints(0, 0, 1) };
    let ray = ray_ints(0, 0, 1, 0, 0, 2);
    assert!(matches!(plane.intersect(&ray), IntersectResult::Miss));
    let ray = ray_ints(0, 0, -1, 0, 0, 0);
    match plane.intersect(&ray) {
        IntersectResult::HitOnce(hit) => {
            assert_radvec_ints(&hit.position, 0, 0, 0);
            assert_radvec_ints(&hit.normal, 0, 0, -1);
        }
        _ => panic!("a ray toward the plane must hit it once"),
    }
}

#[test]
fn intersect_ball_test() {
    let ball = Ball::new(Rat::from_int(5));
    let ray = ray_ints(0, 0, -10, 0, 0, 0);
    match ball.intersect(&ray) {
        IntersectResult::HitTwice(first, second) => {
            assert_radvec_ints(&first.position, 0, 0, -5);
            assert_radvec_ints(&first.normal, 0, 0, -1);
            assert_radvec_ints(&second.position, 0, 0, 5);
            assert_radvec_ints(&second.normal, 0, 0, 1);
        }
        _ => panic!("a ray through the ball must enter and exit"),
    }
    let ray = ray_ints(5, 0, -10, 5, 0, 0);
    match ball.intersect(&ray) {
        IntersectResult::HitOnce(hit) => {
            assert_radvec_ints(&hit.position, 5, 0, 0);
            assert_radvec_ints(&hit.normal, 1, 0, 0);
        }
        _ => panic!("a tangent ray must graze the ball once"),
    }
}

#[test]
fn trackball_test() {
    let trackball = VirtualTrackball::new(Vec3::ints(0, 0, 0), Rat::from_int(1)).unwrap();
    let start = ray_ints(0, 0, -2, 0, 0, 0);
    let end = ray_ints(-2, 0, -2, 0, 0, 0);
    let (start_vec, end_vec) = trackball.compute(&start, &end).unwrap();
    let s = radvec_f64(&start_vec);
    let e = radvec_f64(&end_vec);
    let axis = s.cross(e).normalize();
    let cgmath::Rad(angle) = s.angle(e);
    assert!((axis - cgmath::Vector3::new(0.0, 1.0, 0.0)).magnitude() < 0.00001);
    assert!((angle - 45.0_f64.to_radians()).abs() < 1e-12);
}

#[test]
fn rat_arithmetic_test() {
    let third = Rat::ratio(1, 3);
    let sixth = Rat::ratio(2, 12);
    assert!(third.add(&sixth).eq_val(&Rat::ratio(1, 2)));
    assert!(third.sub(&sixth).eq_val(&Rat::ratio(1, 6)));
    assert!(third.mul(&sixth).eq_val(&Rat::ratio(1, 18)));
    assert!(third.div(&sixth).eq_val(&Rat::from_int(2)));
    assert!(third.neg().lt(&sixth));
    assert!(Rat::ratio(7, -2).eq_val(&Rat::ratio(-7, 2)));
    assert_eq!(Rat::ratio(-7, 2).sign(), -1);
    assert_eq!(Rat::from_int(0).sign(), 0);
}

#[test]
fn radical_compare_test() {
    // sqrt(2) against nearby rationals, across different radicands.
    let sqrt2 = Radical { a: Rat::from_int(0), b: Rat::from_int(1), k: Rat::from_int(2) };
    let three_halves = Radical::from_rat(&Rat::ratio(3, 2));
    let seven_fifths = Radical::from_rat(&Rat::ratio(7, 5));
    assert!(sqrt2.lt(&three_halves));
    assert!(seven_fifths.lt(&sqrt2));
    // 1 + sqrt(3) (2.732...) against sqrt(10) (3.162...), with both a
    // rational part and two different radicands in play.
    let sqrt3 = Radical { a: Rat::from_int(0), b: Rat::from_int(1), k: Rat::from_int(3) };
    let sqrt10 = Radical { a: Rat::from_int(0), b: Rat::from_int(1), k: Rat::from_int(10) };
    let one_plus_sqrt3 = sqrt3.add_rat(&Rat::from_int(1));
    assert!(one_plus_sqrt3.lt(&sqrt10));
    assert!(!sqrt10.lt(&one_plus_sqrt3));
    assert_eq!(sqrt2.sign(), 1);
    assert_eq!(sqrt2.neg().sign(), -1);
}

#[test]
fn closest_farthest_test() {
    let ball = Ball::new(Rat::from_int(5));
    let ray = ray_ints(0, 0, -10, 0, 0, 0);
    let closest = ball.intersect(&ray).closest().unwrap();
    assert_radvec_ints(&closest.position, 0, 0, -5);
    let farthest = ball.intersect(&ray).farthest().unwrap();
    assert_radvec_ints(&farthest.position, 0, 0, 5);
    assert!(matches!(
        Plane { position: Vec3::ints(0, 0, 0), normal: Vec3::ints(0, 0, 1) }
            .intersect(&ray_ints(0, 0, 1, 0, 0, 2))
            .closest(),
        None
    ));
}

#[test]
fn transform_new_test() {
    // A translation and a nonuniform scale both invert exactly, and
    // the stored matrices are exact two-sided inverses.
    let m = Mat4::from_translation(&Vec3::ints(3, -2, 7));
    let t = Transform::new(m).unwrap();
    assert!(t.affine.mul(&t.inverse_affine).is_id_val());
    assert!(t.inverse_affine.mul(&t.affine).is_id_val());
    let ray = ray_ints(0, 0, 0, 1, 1, 1);
    let local = t.apply_forward(&ray);
    assert!(local.eye.eq_val(&Vec3::ints(-3, 2, -7)));
    assert!(local.target.eq_val(&Vec3::ints(-2, 3, -6)));

    // A singular linear block is rejected.
    let singular = Mat4::from_nonuniform_scale(
        &Rat::from_int(0),
        &Rat::from_int(1),
        &Rat::from_int(1),
    );
    assert!(Transform::new(singular).is_none());

    // A matrix that is not affine (its last row is not 0,0,0,1) is
    // rejected too.
    let mut skewed = Mat4::identity();
    skewed.rw.w = Rat::from_int(2);
    assert!(Transform::new(skewed).is_none());
}

#[test]
fn ray_transform_round_trip_test() {
    // A scale composed with a translation, applied and then undone.
    let m = Mat4::from_translation(&Vec3::ints(1, 2, 3)).mul(&Mat4::from_nonuniform_scale(
        &Rat::from_int(2),
        &Rat::ratio(1, 3),
        &Rat::from_int(5),
    ));
    let t = Transform::new(m).unwrap();
    let ray = ray_ints(4, -1, 9, -2, 8, 3);
    let there = ray.transform(&t.affine);
    let back = there.transform(&t.inverse_affine);
    assert!(back.eye.eq_val(&ray.eye));
    assert!(back.target.eq_val(&ray.target));
}

#[test]
fn clip_projection_on_plane_test() {
    // The projected point of an outside clip lies exactly on the plane
    // when the plane's normal has unit length.
    let plane = Plane { position: Vec3::ints(2, 0, 5), normal: Vec3::ints(0, 0, 1) };
    let point = Vec3::ints(7, 1, -4);
    match point.dup().clip(&plane) {
        Clipped::Outside(q) => {
            let dist = q.sub(&plane.position).dot(&plane.normal);
            assert!(dist.eq_val(&Rat::from_int(0)));
        }
        Clipped::Inside(_) => panic!("the point lies behind the plane"),
    }
}

fn translated_ball(x: i64, y: i64, z: i64, radius: i64) -> Model {
    let m = Mat4::from_translation(&Vec3::ints(x, y, z));
    Model::Transform(
        Transform::new(m).unwrap(),
        Box::new(Model::Object(Primitive::Ball(Ball::new(Rat::from_int(radius))))),
    )
}

#[test]
fn scene_nearest_test() {
    // Two balls along the ray; one hit is irrational (5 - sqrt(3)), the
    // other rational (z = 3); the scene must pick z = 3.
    let far = translated_ball(1, 0, 5, 2);
    let near = translated_ball(0, 0, 4, 1);
    let scene = Model::Scene(vec![far, near]);
    let ray = ray_ints(0, 0, 0, 0, 0, 1);
    let hit = scene.intersect(&ray).unwrap();
    let p = radvec_f64(&hit.position);
    assert!((p - cgmath::Vector3::new(0.0, 0.0, 3.0)).magnitude() < 1e-12);

    let empty = Model::Scene(vec![]);
    assert!(empty.intersect(&ray).is_none());
}

#[test]
fn and_or_test() {
    let ray = ray_ints(0, 0, 0, 0, 0, 1);
    let a = translated_ball(1, 0, 5, 2);
    let b = translated_ball(0, 0, 4, 1);
    let and = Model::And(
        Box::new(translated_ball(1, 0, 5, 2)),
        Box::new(translated_ball(0, 0, 4, 1)),
    );
    let or = Model::Or(
        Box::new(translated_ball(1, 0, 5, 2)),
        Box::new(translated_ball(0, 0, 4, 1)),
    );
    let ha = and.intersect(&ray).unwrap();
    let ho = or.intersect(&ray).unwrap();
    // Both children hit, so And and Or agree on the nearer hit.
    let pa = radvec_f64(&ha.position);
    let po = radvec_f64(&ho.position);
    assert!((pa - po).magnitude() < 1e-12);
    assert!((pa.z - 3.0).abs() < 1e-12);

    // One child missing: And misses, Or returns the hit of the other.
    let miss = translated_ball(50, 0, 5, 1);
    let and_miss = Model::And(Box::new(a), Box::new(miss));
    assert!(and_miss.intersect(&ray).is_none());
    let miss = translated_ball(50, 0, 5, 1);
    let or_one = Model::Or(Box::new(miss), Box::new(b));
    let h = or_one.intersect(&ray).unwrap();
    assert!((radvec_f64(&h.position).z - 3.0).abs() < 1e-12);
}

#[test]
fn clip_model_test() {
    let ray = ray_ints(0, 0, -10, 0, 0, 0);
    // Keeping the far half-space discards the near hemisphere's hit.
    let keep_far = Model::Clip(
        Plane { position: Vec3::ints(0, 0, 0), normal: Vec3::ints(0, 0, 1) },
        Box::new(Model::Object(Primitive::Ball(Ball::new(Rat::from_int(5))))),
    );
    assert!(keep_far.intersect(&ray).is_none());
    let keep_near = Model::Clip(
        Plane { position: Vec3::ints(0, 0, 0), normal: Vec3::ints(0, 0, -1) },
        Box::new(Model::Object(Primitive::Ball(Ball::new(Rat::from_int(5))))),
    );
    let hit = keep_near.intersect(&ray).unwrap();
    assert_radvec_ints(&hit.position, 0, 0, -5);
}

#[test]
fn trackball_fallback_test() {
    // A ray missing the sphere still picks a point on the sphere: the
    // planar hit pushed radially out.
    let trackball = VirtualTrackball::new(Vec3::ints(0, 0, 0), Rat::from_int(1)).unwrap();
    let ray = ray_ints(0, 0, -2, 0, 5, 0);
    let p = trackball.intersect(&ray).unwrap();
    let w = radvec_f64(&p);
    assert!((w - cgmath::Vector3::new(0.0, 1.0, 0.0)).magnitude() < 1e-12);
    assert!(!trackball.test(&ray));
    assert!(trackball.test(&ray_ints(0, 0, -2, 0, 0, 0)));

    // A ray that misses the sphere and runs parallel to the fallback
    // plane picks no surface point at all, so the drag yields nothing.
    let parallel = ray_ints(0, 0, -2, 0, 5, -2);
    assert!(trackball.intersect(&parallel).is_none());
    assert!(trackball.compute(&parallel, &ray_ints(0, 0, -2, 0, 0, 0)).is_none());
}

#[test]
fn trackball_identical_rays_test() {
    let trackball = VirtualTrackball::new(Vec3::ints(2, 1, 0), Rat::from_int(3)).unwrap();
    let ray = ray_ints(0, 0, -2, 1, 1, 1);
    assert!(trackball.compute(&ray, &ray.dup()).is_none());
    // Equal as values counts as equal, whatever the denominators.
    let same = Ray {
        eye: Vec3 { x: Rat::ratio(0, 5), y: Rat::from_int(0), z: Rat::ratio(-4, 2) },
        target: Vec3::ints(1, 1, 1),
    };
    assert!(trackball.compute(&ray, &same).is_none());
}

#[test]
fn cli_plan_test() {
    let cli = Cli { generate: Some(String::from("random")), clear: false };
    assert_eq!(
        cli.plan(),
        Ok(CliPlan { clear: false, generate_random: true, cli_mode: true })
    );
    let cli = Cli { generate: Some(String::from("fixed")), clear: true };
    assert_eq!(cli.plan(), Err(CliArgError::InvalidGenerate));
    let cli = Cli { generate: None, clear: true };
    assert_eq!(
        cli.plan(),
        Ok(CliPlan { clear: true, generate_random: false, cli_mode: true })
    );
    let cli = Cli { generate: None, clear: false };
    assert_eq!(
        cli.plan(),
        Ok(CliPlan { clear: false, generate_random: false, cli_mode: false })
    );
}
