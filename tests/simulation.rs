use doodle_shoot::arena::{Arena, Id};
use doodle_shoot::collision::{COIN_BONUS, KILL_BONUS, MIN_JUMP_SPEED};
use doodle_shoot::components::{
    Bird, Body, Cloud, Instant, Lifetime, Projectile, Trigger, TriggerKind,
};
use doodle_shoot::collider::{Collider, Shape};
use doodle_shoot::geometry::{Vec2, UNIT};
use doodle_shoot::model::{Effect, Model, PlayerInput, Sound, WORLD_WIDTH};
use doodle_shoot::position::PositionCylinder;

const W: i64 = WORLD_WIDTH;
const FRAME: i64 = 16_000;

fn at(x: i64, y: i64) -> PositionCylinder {
    PositionCylinder::from_world(Vec2::new(x, y), W)
}

fn idle() -> PlayerInput {
    PlayerInput { input_dir: Vec2::zero(), jump: false, shoot: false, cursor: at(0, 0) }
}

fn player(m: &Model) -> &doodle_shoot::components::Doodle {
    m.doodles.get(m.player.body).unwrap()
}

fn place_player(m: &mut Model, x: i64, y: i64, vy: i64) {
    let d = m.doodles.get_mut(m.player.body).unwrap();
    d.body.collider.position = at(x, y);
    d.body.velocity = Vec2::new(0, vy);
}

fn start() -> Model {
    Model::new(Instant::from_micros(1_000_000))
}

#[test]
fn new_model_has_one_resting_player() {
    let m = start();
    assert_eq!(m.world_width, 19_250_000);
    assert_eq!(m.doodles.ids().len(), 1);
    let d = player(&m);
    assert_eq!(d.body.collider.position.pos, Vec2::new(0, 0));
    assert_eq!(d.body.velocity, Vec2::zero());
    assert_eq!(d.grounded, None);
    assert_eq!(m.camera.fov, 9_140_625);
    assert_eq!(m.current_score(), 0);
    assert!(m.clouds.ids().is_empty());
}

#[test]
fn first_step_seeds_the_level() {
    let mut m = start();
    m.step(idle(), FRAME, Instant::from_micros(1_016_000));
    // The three first clouds and those generated up to twenty units above the player.
    assert!(m.clouds.ids().len() >= 3 + 10);
    assert!(m.generated_height >= 20 * UNIT);
    let springs = m
        .triggers
        .ids()
        .into_iter()
        .filter(|t| m.triggers.get(*t).unwrap().kind == TriggerKind::Spring)
        .count();
    assert!(springs >= 1);
    assert_eq!(m.birds.ids().len(), 1);
    for id in m.clouds.ids() {
        let x = m.clouds.get(id).unwrap().body.collider.position.pos.x;
        assert!(0 <= x && x < W);
    }
}

#[test]
fn player_falls_freely_for_one_second() {
    let mut m = start();
    // A far-away cloud keeps the starting clouds from being placed below the player.
    m.clouds.insert(Cloud::new(at(9 * UNIT, 200 * UNIT)));
    m.generated_height = 500 * UNIT;
    let mut now = 1_000_000u64;
    let mut last_y = player(&m).body.collider.position.pos.y;
    for _ in 0..1000 {
        now += 1000;
        m.step(idle(), 1000, Instant::from_micros(now));
        let y = player(&m).body.collider.position.pos.y;
        assert!(y < last_y);
        last_y = y;
    }
    assert_eq!(player(&m).body.velocity.y, -9_800_000);
    assert!(last_y < -4 * UNIT);
}

#[test]
fn gravity_and_speed_limit() {
    let mut m = start();
    m.gravity(500_000);
    assert_eq!(player(&m).body.velocity, Vec2::new(0, -4_900_000));
    place_player(&mut m, 0, 0, -100 * UNIT);
    m.movement(100_000);
    let d = player(&m);
    assert_eq!(d.body.velocity, Vec2::new(0, -40 * UNIT));
    assert_eq!(d.body.collider.position.pos.y, -4 * UNIT);
}

#[test]
fn landing_on_a_cloud_directly_below() {
    let mut m = start();
    let cloud = m.clouds.insert(Cloud::new(at(0, 0)));
    m.generated_height = 500 * UNIT;
    place_player(&mut m, 0, UNIT, -5 * UNIT);
    let mut now = 1_000_000u64;
    let mut steps = 0;
    while player(&m).grounded.is_none() && steps < 10 {
        now += FRAME as u64;
        m.step(idle(), FRAME, Instant::from_micros(now));
        steps += 1;
    }
    assert_eq!(player(&m).grounded, Some(cloud));
    assert!(steps <= 4);
    let c = m.clouds.get(cloud).unwrap();
    assert!(player(&m).body.velocity.y <= c.body.velocity.y);
}

#[test]
fn landing_within_one_step_when_touching() {
    let mut m = start();
    let cloud = m.clouds.insert(Cloud::new(at(0, 0)));
    m.generated_height = 500 * UNIT;
    place_player(&mut m, 0, 740_000, -5 * UNIT);
    m.step(idle(), FRAME, Instant::from_micros(1_016_000));
    assert_eq!(player(&m).grounded, Some(cloud));
    let c = m.clouds.get(cloud).unwrap();
    assert!(player(&m).body.velocity.y <= c.body.velocity.y);
    // The cloud was pushed down a little and took some of the player's speed.
    assert!(c.body.collider.position.pos.y < 0);
    assert!(c.body.velocity.y < 0);
    assert!(m.effects.contains(&Effect::Sound(Sound::Landing)));
}

#[test]
fn landing_shares_velocity_by_mass() {
    let mut m = start();
    let cloud = m.clouds.insert(Cloud::new(at(0, 0)));
    place_player(&mut m, 0, 740_000, -3 * UNIT);
    m.collide_clouds(FRAME, Instant::from_micros(1_000_000));
    // Masses 10 and 5: the player gives up a third of the relative speed,
    // the cloud takes on two thirds, and they move down together.
    assert_eq!(player(&m).body.velocity.y, -2_000_000);
    assert_eq!(m.clouds.get(cloud).unwrap().body.velocity.y, -2_000_000);
    assert_eq!(player(&m).grounded, Some(cloud));
    assert_eq!(player(&m).coyote_timer, Instant::from_micros(1_000_000));
}

#[test]
fn moving_up_through_a_cloud_does_not_land() {
    let mut m = start();
    m.clouds.insert(Cloud::new(at(0, 0)));
    place_player(&mut m, 0, 740_000, 3 * UNIT);
    m.collide_clouds(FRAME, Instant::from_micros(1_000_000));
    assert_eq!(player(&m).grounded, None);
    assert_eq!(player(&m).body.velocity.y, 3 * UNIT);
}

#[test]
fn coyote_time_keeps_grounding_briefly() {
    let mut m = start();
    let cloud = m.clouds.insert(Cloud::new(at(0, 0)));
    place_player(&mut m, 0, 740_000, -UNIT);
    m.collide_clouds(FRAME, Instant::from_micros(1_000_000));
    assert_eq!(player(&m).grounded, Some(cloud));
    // Leave the cloud.
    place_player(&mut m, 5 * UNIT, 10 * UNIT, 0);
    m.collide_clouds(FRAME, Instant::from_micros(1_150_000));
    assert_eq!(player(&m).grounded, Some(cloud));
    m.collide_clouds(FRAME, Instant::from_micros(1_200_000));
    assert_eq!(player(&m).grounded, Some(cloud));
    m.collide_clouds(FRAME, Instant::from_micros(1_200_001));
    assert_eq!(player(&m).grounded, None);
}

#[test]
fn jumping_needs_ground() {
    let mut m = start();
    let cloud = m.clouds.insert(Cloud::new(at(0, 0)));
    let jump = PlayerInput { jump: true, ..idle() };
    m.player_control(jump, FRAME, Instant::from_micros(1_000_000));
    assert_eq!(player(&m).body.velocity.y, 0);
    place_player(&mut m, 0, 740_000, -UNIT);
    m.collide_clouds(FRAME, Instant::from_micros(1_000_000));
    let vy = player(&m).body.velocity.y;
    let cloud_vy = m.clouds.get(cloud).unwrap().body.velocity.y;
    m.player_control(jump, FRAME, Instant::from_micros(1_010_000));
    assert_eq!(player(&m).body.velocity.y, vy + 5 * UNIT);
    // The cloud is pushed down by the player's share: 10 / 15 of the jump.
    assert_eq!(m.clouds.get(cloud).unwrap().body.velocity.y, cloud_vy - 3_333_333);
    assert!(m.effects.contains(&Effect::Sound(Sound::Jump)));
}

#[test]
fn steering_is_limited_by_acceleration() {
    let mut m = start();
    let right = PlayerInput { input_dir: Vec2::new(UNIT, 0), ..idle() };
    m.player_control(right, 10_000, Instant::from_micros(1_000_000));
    assert_eq!(player(&m).body.velocity.x, 500_000);
    m.player_control(right, 1_000_000, Instant::from_micros(1_000_000));
    assert_eq!(player(&m).body.velocity.x, 5 * UNIT);
}

#[test]
fn shooting_fires_toward_the_cursor() {
    let mut m = start();
    let shoot = PlayerInput { shoot: true, cursor: at(0, 5 * UNIT), ..idle() };
    // Still cooling down from the start.
    m.player_control(shoot, FRAME, Instant::from_micros(1_200_000));
    assert!(m.projectiles.ids().is_empty());
    m.player_control(shoot, FRAME, Instant::from_micros(1_600_000));
    let ids = m.projectiles.ids();
    assert_eq!(ids.len(), 1);
    let p = m.projectiles.get(ids[0]).unwrap();
    assert_eq!(p.body.velocity, Vec2::new(0, 10 * UNIT));
    assert_eq!(p.lifetime, Lifetime { value: UNIT, max: UNIT });
    assert_eq!(player(&m).body.velocity.y, -5 * UNIT);
    assert_eq!(player(&m).shoot_timer, Instant::from_micros(1_600_000));
}

fn spring_on_player(m: &mut Model) -> Id {
    let cloud = m.clouds.insert(Cloud::new(at(9 * UNIT, 50 * UNIT)));
    let mut spring = Trigger::spring(cloud, W);
    spring.collider.position = at(0, 0);
    m.triggers.insert(spring)
}

#[test]
fn spring_fires_once_per_entry() {
    let mut m = start();
    let spring = spring_on_player(&mut m);
    m.collide_triggers(FRAME);
    assert_eq!(player(&m).body.velocity.y, MIN_JUMP_SPEED);
    assert_eq!(player(&m).active_triggers, vec![spring]);
    // Resting inside it: no second kick.
    place_player(&mut m, 0, 0, 0);
    for _ in 0..5 {
        m.collide_triggers(FRAME);
        assert_eq!(player(&m).body.velocity.y, 0);
    }
    // Leave, then enter again.
    place_player(&mut m, 5 * UNIT, 0, 0);
    m.collide_triggers(FRAME);
    assert!(player(&m).active_triggers.is_empty());
    place_player(&mut m, 0, 0, 0);
    m.collide_triggers(FRAME);
    assert_eq!(player(&m).body.velocity.y, MIN_JUMP_SPEED);
}

#[test]
fn spring_keeps_a_faster_climb() {
    let mut m = start();
    spring_on_player(&mut m);
    place_player(&mut m, 0, 0, 20 * UNIT);
    m.collide_triggers(FRAME);
    assert_eq!(player(&m).body.velocity.y, 30 * UNIT);
}

#[test]
fn spring_pushes_its_cloud_back() {
    let mut m = start();
    let cloud = m.clouds.insert(Cloud::new(at(9 * UNIT, 50 * UNIT)));
    let mut spring = Trigger::spring(cloud, W);
    spring.collider.position = at(0, 0);
    m.triggers.insert(spring);
    m.collide_triggers(FRAME);
    // Three units times the mass ratio 10 / 5.
    assert_eq!(m.clouds.get(cloud).unwrap().body.velocity.y, -6 * UNIT);
}

#[test]
fn coin_is_collected_once() {
    let mut m = start();
    let mut coin = Trigger::coin(None, W);
    coin.collider.position = at(0, 0);
    let id = m.triggers.insert(coin);
    m.collide_triggers(FRAME);
    assert!(m.triggers.get(id).is_none());
    assert_eq!(m.score, COIN_BONUS);
    m.collide_triggers(FRAME);
    assert_eq!(m.score, COIN_BONUS);
    assert!(m.triggers.ids().is_empty());
    assert!(m.effects.contains(&Effect::Sound(Sound::Coin)));
    // The id stays stale even after its slot is used again.
    let other = m.triggers.insert(Trigger::coin(None, W));
    assert_ne!(other, id);
    assert!(m.triggers.get(id).is_none());
}

#[test]
fn bird_hits_the_player() {
    let mut m = start();
    let bird = m.birds.insert(Bird::new(at(0, 900_000), 5 * UNIT));
    m.collide_birds(FRAME);
    assert!(m.birds.get(bird).is_none());
    assert_eq!(m.score, -50);
    // Pushed by 5 * 30 / 10 units per second.
    assert_eq!(player(&m).body.velocity, Vec2::new(15 * UNIT, 0));
    assert!(m.effects.contains(&Effect::Sound(Sound::Hit)));
}

#[test]
fn bird_hit_halves_vertical_speed() {
    let mut m = start();
    place_player(&mut m, 0, 0, -8 * UNIT);
    m.birds.insert(Bird::new(at(0, 900_000), 0));
    m.collide_birds(FRAME);
    assert_eq!(player(&m).body.velocity.y, -4 * UNIT);
}

#[test]
fn bird_hit_keeps_upward_speed() {
    let mut m = start();
    place_player(&mut m, 0, 0, 8 * UNIT);
    m.birds.insert(Bird::new(at(0, 900_000), 0));
    m.collide_birds(FRAME);
    assert_eq!(player(&m).body.velocity.y, 8 * UNIT);
}

#[test]
fn no_jump_from_a_vanished_cloud() {
    let mut m = start();
    let cloud = m.clouds.insert(Cloud::new(at(0, 0)));
    place_player(&mut m, 0, 740_000, -UNIT);
    m.collide_clouds(FRAME, Instant::from_micros(1_000_000));
    assert_eq!(player(&m).grounded, Some(cloud));
    m.clouds.remove(cloud);
    let vy = player(&m).body.velocity.y;
    m.player_control(PlayerInput { jump: true, ..idle() }, FRAME, Instant::from_micros(1_010_000));
    assert_eq!(player(&m).body.velocity.y, vy);
    assert!(!m.effects.contains(&Effect::Sound(Sound::Jump)));
}

#[test]
fn positions_keep_their_height() {
    let top = doodle_shoot::position::HEIGHT_LIMIT;
    let p = at(0, top);
    assert_eq!(p.pos.y, top);
    assert_eq!(at(0, top - 5).shifted(Vec2::new(0, 5)).pos.y, top);
    // A move past the top of the world is held there.
    assert_eq!(p.moved(Vec2::new(0, 1)).pos.y, top);
    assert_eq!(at(0, 0).moved(Vec2::new(3, -4)), at(3, -4));
}

#[test]
fn projectile_shoots_a_bird_down() {
    let mut m = start();
    let bird = m.birds.insert(Bird::new(at(9 * UNIT, 30 * UNIT), 5 * UNIT));
    let shot = Projectile::new(
        Body::new(Collider::new(at(9 * UNIT, 30_300_000), Shape::circle(200_000)), 1),
        UNIT,
    );
    let p = m.projectiles.insert(shot);
    let spare = m.projectiles.insert(Projectile::new(
        Body::new(Collider::new(at(0, 80 * UNIT), Shape::circle(200_000)), 1),
        UNIT,
    ));
    m.collide_birds(FRAME);
    assert!(m.birds.get(bird).is_none());
    assert!(m.projectiles.get(p).is_none());
    assert!(m.projectiles.get(spare).is_some());
    assert_eq!(m.score, KILL_BONUS);
}

#[test]
fn projectile_expires_after_its_lifetime() {
    let mut m = start();
    let p = m.projectiles.insert(Projectile::new(
        Body::new(Collider::new(at(0, 0), Shape::circle(200_000)), 1),
        UNIT,
    ));
    m.lifetime(600_000);
    assert_eq!(m.projectiles.get(p).unwrap().lifetime.value, 400_000);
    m.lifetime(400_000);
    assert!(m.projectiles.get(p).is_none());
}

#[test]
fn projectile_removed_in_full_steps() {
    let mut m = start();
    m.clouds.insert(Cloud::new(at(9 * UNIT, 200 * UNIT)));
    m.generated_height = 500 * UNIT;
    let p = m.projectiles.insert(Projectile::new(
        Body::new(Collider::new(at(5 * UNIT, 0), Shape::circle(200_000)), 1),
        UNIT,
    ));
    let mut now = 1_000_000u64;
    for _ in 0..62 {
        now += FRAME as u64;
        m.step(idle(), FRAME, Instant::from_micros(now));
    }
    assert!(m.projectiles.get(p).is_some());
    m.step(idle(), FRAME, Instant::from_micros(now + FRAME as u64));
    assert!(m.projectiles.get(p).is_none());
}

#[test]
fn attached_triggers_follow_their_cloud() {
    let mut m = start();
    let cloud = m.clouds.insert(Cloud::new(at(3 * UNIT, 7 * UNIT)));
    let spring = m.triggers.insert(Trigger::spring(cloud, W));
    let coin = m.triggers.insert(Trigger::coin(Some(cloud), W));
    m.attached_triggers(FRAME);
    assert_eq!(m.triggers.get(spring).unwrap().collider.position.pos, Vec2::new(3 * UNIT, 7_300_000));
    assert_eq!(m.triggers.get(coin).unwrap().collider.position.pos, Vec2::new(3 * UNIT, 7_500_000));
    // A trigger whose cloud is gone stays where it was.
    m.clouds.remove(cloud);
    m.attached_triggers(FRAME);
    assert_eq!(m.triggers.get(spring).unwrap().collider.position.pos, Vec2::new(3 * UNIT, 7_300_000));
}

#[test]
fn clouds_are_pulled_back_to_their_anchor() {
    let mut m = start();
    let id = m.clouds.insert(Cloud::new(at(0, 0)));
    m.clouds.get_mut(id).unwrap().body.collider.position = at(0, -2 * UNIT);
    m.movement(FRAME);
    let c = m.clouds.get(id).unwrap();
    assert!(c.body.velocity.y > 0);
    assert!(c.body.collider.position.pos.y > -2 * UNIT);
    // Never farther than five units from the anchor.
    m.clouds.get_mut(id).unwrap().body.collider.position = at(0, -9 * UNIT);
    m.movement(FRAME);
    assert!(m.clouds.get(id).unwrap().body.collider.position.pos.y >= -5 * UNIT);
}

#[test]
fn despawn_below_the_view() {
    let mut m = start();
    let low = m.clouds.insert(Cloud::new(at(0, -10 * UNIT)));
    let high = m.clouds.insert(Cloud::new(at(0, -9 * UNIT)));
    let mut coin = Trigger::coin(None, W);
    coin.collider.position = at(0, -12 * UNIT);
    let t = m.triggers.insert(coin);
    m.despawn_below();
    assert!(m.clouds.get(low).is_none());
    assert!(m.clouds.get(high).is_some());
    assert!(m.triggers.get(t).is_none());
}

#[test]
fn camera_follows_upward_only() {
    let mut m = start();
    place_player(&mut m, 0, 4 * UNIT, 0);
    m.camera_control(100_000);
    assert_eq!(m.camera.target_position.pos.y, 4 * UNIT);
    assert_eq!(m.camera.center.pos.y, 2 * UNIT);
    assert_eq!(m.current_score(), 10);
    place_player(&mut m, 0, -4 * UNIT, 0);
    m.camera_control(1_000_000);
    assert_eq!(m.camera.target_position.pos.y, 4 * UNIT);
    assert_eq!(m.camera.center.pos.y, 4 * UNIT);
}

#[test]
fn falling_out_of_view_ends_the_session() {
    let mut m = start();
    m.score = 30;
    place_player(&mut m, 0, -5 * UNIT, 0);
    m.check_fall();
    assert_eq!(m.session_end, None);
    place_player(&mut m, 0, -6 * UNIT, 0);
    m.check_fall();
    assert_eq!(m.session_end, Some(30));
}

#[test]
fn particle_bursts() {
    let mut m = start();
    let n = m.spawn_particles(5_000, at(0, 0), Vec2::new(0, -UNIT), doodle_shoot::components::Color::rgb(1, 2, 3));
    assert_eq!(n, 5);
    assert_eq!(m.particles.ids().len(), 5);
    for id in m.particles.ids() {
        let p = m.particles.get(id).unwrap();
        let d = p.body.collider.position.as_dir();
        assert!(d.x * d.x + d.y * d.y <= 200_000 * 200_000);
        assert_eq!(p.body.velocity, Vec2::new(0, -UNIT));
    }
    assert_eq!(m.spawn_particles(0, at(0, 0), Vec2::zero(), doodle_shoot::components::Color::rgb(0, 0, 0)), 0);
    assert_eq!(m.spawn_particles(2_500, at(0, 0), Vec2::zero(), doodle_shoot::components::Color::rgb(0, 0, 0)), 3);
    m.update_particles(600_000);
    assert!(m.particles.ids().is_empty());
}

#[test]
fn effects_are_drained() {
    let mut m = start();
    let mut coin = Trigger::coin(None, W);
    coin.collider.position = at(0, 0);
    m.triggers.insert(coin);
    m.collide_triggers(FRAME);
    let effects = m.drain_effects();
    assert_eq!(effects.len(), 2);
    assert!(m.effects.is_empty());
}

#[test]
fn clock_moves_forward() {
    let clock = doodle_shoot::components::Clock::new();
    let a = clock.now();
    let b = clock.now();
    assert!(b.micros >= a.micros);
    assert!(a.micros < 10_000_000);
    assert_eq!(Instant::from_micros(10).elapsed(Instant::from_micros(25)), 15);
    assert_eq!(Instant::from_micros(25).elapsed(Instant::from_micros(10)), 0);
}

#[test]
fn update_runs_a_step() {
    let mut m = start();
    m.update(idle(), FRAME);
    assert_eq!(m.time, FRAME);
    assert!(!m.clouds.ids().is_empty());
}

#[test]
fn arena_ids_are_generation_checked() {
    let mut a: Arena<i64> = Arena::new();
    let x = a.insert(1);
    let y = a.insert(2);
    assert_eq!(a.ids(), vec![x, y]);
    assert_eq!(a.remove(x), Some(1));
    assert_eq!(a.remove(x), None);
    let z = a.insert(3);
    assert_eq!(z.index, x.index);
    assert_ne!(z, x);
    assert_eq!(a.get(x), None);
    assert_eq!(a.get(z), Some(&3));
    assert!(a.contains(y));
}

#[test]
fn spawned_cloud_carries_its_extra() {
    let mut m = start();
    m.spawn_cloud(5 * UNIT, UNIT, 3 * UNIT, doodle_shoot::generation::CloudExtra::Spring);
    assert_eq!(m.generated_height, UNIT);
    let clouds = m.clouds.ids();
    assert_eq!(clouds.len(), 1);
    let c = m.clouds.get(clouds[0]).unwrap();
    assert_eq!(c.body.collider.position.pos, Vec2::new(5 * UNIT, UNIT));
    assert_eq!(c.anchor, c.body.collider.position);
    assert_eq!(c.anchor_velocity, Vec2::new(3 * UNIT, 0));
    let triggers = m.triggers.ids();
    assert_eq!(triggers.len(), 1);
    let t = m.triggers.get(triggers[0]).unwrap();
    assert_eq!(t.kind, TriggerKind::Spring);
    assert_eq!(t.attached_to.unwrap().cloud, clouds[0]);
    m.spawn_cloud(W, UNIT, 0, doodle_shoot::generation::CloudExtra::Nothing);
    assert_eq!(m.generated_height, 2 * UNIT);
    assert_eq!(m.triggers.ids().len(), 1);
    let last = m.clouds.ids()[1];
    assert_eq!(m.clouds.get(last).unwrap().body.collider.position.pos, Vec2::new(0, 2 * UNIT));
}

#[test]
fn bird_is_sent_where_the_player_is_heading() {
    let mut m = start();
    place_player(&mut m, UNIT, 0, 2 * UNIT);
    m.spawn_bird_ahead(2 * UNIT, -5 * UNIT);
    assert_eq!(m.next_bird, 0);
    let birds = m.birds.ids();
    assert_eq!(birds.len(), 1);
    let b = m.birds.get(birds[0]).unwrap();
    assert_eq!(b.body.collider.position.pos, Vec2::new(UNIT + W / 2, 4 * UNIT));
    assert_eq!(b.body.velocity, Vec2::new(-5 * UNIT, 0));
}

#[test]
fn seeded_level_layout() {
    let mut m = start();
    m.seed_level();
    let clouds: Vec<Vec2> =
        m.clouds.ids().into_iter().map(|c| m.clouds.get(c).unwrap().body.collider.position.pos).collect();
    assert_eq!(
        clouds,
        vec![Vec2::new(0, -3 * UNIT), Vec2::new(W - 2 * UNIT, -UNIT), Vec2::new(UNIT, 2_500_000)]
    );
    let triggers = m.triggers.ids();
    assert_eq!(triggers.len(), 1);
    assert_eq!(m.triggers.get(triggers[0]).unwrap().attached_to.unwrap().cloud, m.clouds.ids()[2]);
    let birds = m.birds.ids();
    assert_eq!(birds.len(), 1);
    let b = m.birds.get(birds[0]).unwrap();
    assert_eq!(b.body.collider.position.pos, Vec2::new(W - 3 * UNIT, 3 * UNIT));
    assert_eq!(b.body.velocity, Vec2::new(5 * UNIT, 0));
}

#[test]
fn bursts_make_their_particles() {
    let mut m = start();
    let color = doodle_shoot::components::Color::rgb(9, 9, 9);
    let burst = |intensity: i64| {
        Effect::Particles(doodle_shoot::model::Burst {
            intensity,
            position: at(0, 0),
            velocity: Vec2::zero(),
            color,
        })
    };
    m.effects.push(burst(5_000));
    m.effects.push(Effect::Sound(Sound::Coin));
    m.effects.push(burst(2_500));
    m.effects.push(burst(0));
    m.spawn_bursts(1);
    // Only the bursts from index 1 on: three particles.
    assert_eq!(m.particles.ids().len(), 3);
    m.spawn_bursts(0);
    assert_eq!(m.particles.ids().len(), 3 + 5 + 3);
}

#[test]
fn large_bursts_are_not_refused() {
    let mut m = start();
    let n = m.spawn_particles(1_500_000, at(0, 0), Vec2::zero(), doodle_shoot::components::Color::rgb(0, 0, 0));
    assert_eq!(n, 1_500);
    assert_eq!(m.particles.ids().len(), 1_500);
}
