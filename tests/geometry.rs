use doodle_shoot::collider::{Collider, Shape};
use doodle_shoot::geometry::{isqrt, Vec2, UNIT};
use doodle_shoot::position::PositionCylinder;

const W: i64 = 19_250_000;

fn at(x: i64, y: i64) -> PositionCylinder {
    PositionCylinder::from_world(Vec2::new(x, y), W)
}

#[test]
fn from_world_wraps_into_range() {
    assert_eq!(at(-UNIT, 0).pos.x, W - UNIT);
    assert_eq!(at(W, 0).pos.x, 0);
    assert_eq!(at(W + 5, 7).pos, Vec2::new(5, 7));
    assert_eq!(at(-3 * W - 1, 0).pos.x, W - 1);
    for x in [-40_000_000, -W, -1, 0, 1, W - 1, W, 2 * W + 3, 77_000_000] {
        let p = at(x, 0);
        assert!(0 <= p.pos.x && p.pos.x < W, "x = {}", x);
    }
}

#[test]
fn zero_is_origin() {
    let z = PositionCylinder::zero(W);
    assert_eq!(z.to_world(), Vec2::new(0, 0));
    assert_eq!(z.world_width(), W);
}

#[test]
fn delta_to_takes_the_short_way_round() {
    let a = at(UNIT, 0);
    let b = at(18 * UNIT, 2 * UNIT);
    let d = a.delta_to(b);
    assert_eq!(d, Vec2::new(-2_250_000, 2 * UNIT));
    assert!(d.x.abs() * 2 <= W);
    assert_eq!(b.delta_to(a), Vec2::new(2_250_000, -2 * UNIT));
    let c = at(5 * UNIT, -UNIT);
    assert_eq!(a.delta_to(c), Vec2::new(4 * UNIT, -UNIT));
}

#[test]
fn delta_round_trip() {
    let points = [at(0, 0), at(UNIT, 3), at(18 * UNIT, -9 * UNIT), at(9_625_000, 0), at(W - 1, 4)];
    for a in points {
        for b in points {
            let d = a.delta_to(b);
            assert!(d.x.abs() * 2 <= W);
            assert_eq!(a.shifted(d), b);
        }
    }
}

#[test]
fn shift_moves_in_place() {
    let mut p = at(18 * UNIT, 0);
    p.shift(Vec2::new(2 * UNIT, -UNIT));
    assert_eq!(p.pos, Vec2::new(750_000, -UNIT));
}

#[test]
fn as_dir_and_distance() {
    assert_eq!(at(18 * UNIT, UNIT).as_dir(), Vec2::new(-1_250_000, UNIT));
    assert_eq!(at(0, 0).distance(at(3 * UNIT, 4 * UNIT)), 5 * UNIT);
    assert_eq!(at(UNIT, 0).distance(at(18 * UNIT, 0)), 2_250_000);
}

#[test]
fn integer_square_root() {
    assert_eq!(isqrt(0), 0);
    assert_eq!(isqrt(1), 1);
    assert_eq!(isqrt(15), 3);
    assert_eq!(isqrt(16), 4);
    assert_eq!(isqrt(25 * 1_000_000_000_000), 5_000_000);
    let big: u128 = 0x4_0000_0000_0000_0000_0000;
    let r = isqrt(big) as u128;
    assert!(r * r <= big && big < (r + 1) * (r + 1));
}

#[test]
fn vector_operations() {
    let v = Vec2::new(3 * UNIT, 4 * UNIT);
    assert_eq!(v.len(), 5 * UNIT);
    assert_eq!(v.normalize_or_zero(), Vec2::new(600_000, 800_000));
    assert_eq!(Vec2::zero().normalize_or_zero(), Vec2::zero());
    assert_eq!(v.clamp_len(10 * UNIT), v);
    assert_eq!(v.clamp_len(UNIT), Vec2::new(600_000, 800_000));
    assert_eq!(Vec2::new(-7, 7).scale(1, 2), Vec2::new(-3, 3));
    assert_eq!(v.dot(Vec2::new(1, 1)), 7 * UNIT as i128);
    assert_eq!(v.add(Vec2::new(1, 2)).sub(Vec2::new(1, 2)), v);
}

#[test]
fn rectangles_landing_contact_points_up() {
    let doodle = Collider::new(at(0, 700_000), Shape::rectangle(UNIT, UNIT));
    let cloud = Collider::new(at(0, 0), Shape::rectangle(1_500_000, 500_000));
    let c = doodle.collide(&cloud).expect("they overlap");
    assert_eq!(c.normal, Vec2::new(0, UNIT));
    assert_eq!(c.penetration, 50_000);
    assert_eq!(c.point.pos, Vec2::new(0, 350_000));
    let c = cloud.collide(&doodle).expect("they overlap");
    assert_eq!(c.normal, Vec2::new(0, -UNIT));
}

#[test]
fn separated_shapes_do_not_collide() {
    let a = Collider::new(at(0, 0), Shape::rectangle(UNIT, UNIT));
    let b = Collider::new(at(0, 760_000), Shape::rectangle(1_500_000, 500_000));
    assert!(a.collide(&b).is_none());
    let c = Collider::new(at(0, 0), Shape::circle(UNIT / 2));
    let d = Collider::new(at(UNIT, 0), Shape::circle(UNIT / 2));
    assert!(c.collide(&d).is_none());
}

#[test]
fn circles_collide_along_centres() {
    let a = Collider::new(at(600_000, 0), Shape::circle(UNIT / 2));
    let b = Collider::new(at(0, 0), Shape::circle(200_000));
    let c = a.collide(&b).expect("they overlap");
    assert_eq!(c.normal, Vec2::new(UNIT, 0));
    assert_eq!(c.penetration, 100_000);
    let same = Collider::new(at(0, 0), Shape::circle(100));
    assert_eq!(same.collide(&same).unwrap().normal, Vec2::new(0, UNIT));
}

#[test]
fn circle_and_rectangle() {
    let bird = Collider::new(at(0, 900_000), Shape::circle(UNIT / 2));
    let doodle = Collider::new(at(0, 0), Shape::rectangle(UNIT, UNIT));
    let c = bird.collide(&doodle).expect("they overlap");
    assert_eq!(c.normal, Vec2::new(0, UNIT));
    assert_eq!(c.penetration, 100_000);
    let c = doodle.collide(&bird).expect("they overlap");
    assert_eq!(c.normal, Vec2::new(0, -UNIT));
    // The circle's centre inside the rectangle.
    let inside = Collider::new(at(400_000, 0), Shape::circle(100_000));
    let c = inside.collide(&doodle).expect("they overlap");
    assert_eq!(c.normal, Vec2::new(UNIT, 0));
    assert_eq!(c.penetration, 200_000);
    let far = Collider::new(at(0, 2 * UNIT), Shape::circle(UNIT / 2));
    assert!(far.collide(&doodle).is_none());
}
