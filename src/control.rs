use vstd::prelude::*;
use crate::arena::Id;
use crate::collider::{Collider, Shape};
use crate::components::{Body, Cloud, Color, Instant, Lifetime, Projectile, Time};
use crate::geometry::{clamp_abs_spec, div_trunc, Vec2, LIMIT, SECOND, UNIT};
use crate::model::{Burst, Effect, Model, PlayerInput, Sound};
use crate::movement::valid_delta;
use crate::position::PositionCylinder;

verus! {

/// Walking speed of the player.
pub const WALK_SPEED: i64 = 5_000_000;

/// How fast the player's horizontal speed follows the input, per second.
pub const ACCELERATION: i64 = 50_000_000;

/// Upward kick of a jump.
pub const JUMP_SPEED: i64 = 5_000_000;

/// Time between two shots, in microseconds.
pub const SHOOT_COOLDOWN: u64 = 500_000;

pub const PROJECTILE_RADIUS: i64 = 200_000;

pub const PROJECTILE_SPEED: i64 = 10;

pub const PROJECTILE_LIFETIME: i64 = 1_000_000;

/// How hard a shot pushes the player back.
pub const RECOIL: i64 = 5;

pub const SHOT_BURST: i64 = 3_000;

/// Time the camera takes to catch up with its target.
pub const CAMERA_TIME: i64 = 200_000;

/// The horizontal velocity of what the player stands on: the cloud's own and
/// its anchor's, or zero.
pub open spec fn ground_speed(grounded: Option<Id>, clouds: Map<Id, Cloud>) -> int {
    match grounded {
        Some(c) => if clouds.contains_key(c) {
            clouds[c].body.velocity.plus(clouds[c].anchor_velocity).x as int
        } else {
            0
        },
        None => 0,
    }
}

/// The horizontal velocity after steering toward the input for `dt`.
pub open spec fn steered_x(vx: int, input_x: int, ground: int, dt: int) -> int {
    let target = div_trunc(clamp_abs_spec(input_x, UNIT as int) * WALK_SPEED, UNIT as int) + ground;
    vx + clamp_abs_spec(target - vx, div_trunc(ACCELERATION * dt, SECOND as int))
}

/// A jump is asked for and the player stands on a cloud that still exists.
pub open spec fn jumps(input: PlayerInput, grounded: Option<Id>, clouds: Map<Id, Cloud>) -> bool {
    input.jump && (grounded matches Some(c) && clouds.contains_key(c))
}

/// The velocity after steering, and after a jump when `jumps` holds.
pub open spec fn controlled_velocity(
    v: Vec2,
    input: PlayerInput,
    grounded: Option<Id>,
    clouds: Map<Id, Cloud>,
    dt: int,
) -> Vec2 {
    let vx = Vec2 {
        x: crate::geometry::bounded(
            steered_x(v.x as int, input.input_dir.x as int, ground_speed(grounded, clouds), dt),
        ) as i64,
        y: v.y,
    };
    if jumps(input, grounded, clouds) {
        vx.plus(Vec2 { x: 0, y: JUMP_SPEED })
    } else {
        vx
    }
}

/// The clouds after the player of mass `mass` jumps off the one it stands on.
pub open spec fn pushed_off(
    clouds: Map<Id, Cloud>,
    input: PlayerInput,
    grounded: Option<Id>,
    mass: int,
) -> Map<Id, Cloud> {
    match grounded {
        Some(c) => if input.jump && clouds.contains_key(c) {
            let cloud = clouds[c];
            let push = Vec2 { x: 0, y: JUMP_SPEED }.times(mass, mass + cloud.body.mass);
            clouds.insert(
                c,
                Cloud { body: Body { velocity: cloud.body.velocity.minus(push), ..cloud.body }, ..cloud },
            )
        } else {
            clouds
        },
        None => clouds,
    }
}

/// The projectile shot from `from` in direction `dir`.
pub open spec fn shot(from: PositionCylinder, dir: Vec2) -> Projectile {
    Projectile {
        body: Body {
            collider: Collider {
                position: from,
                rotation: 0,
                shape: Shape::Circle { radius: PROJECTILE_RADIUS },
            },
            velocity: dir.times(PROJECTILE_SPEED as int, 1),
            mass: 1,
        },
        lifetime: Lifetime { value: PROJECTILE_LIFETIME, max: PROJECTILE_LIFETIME },
    }
}

pub open spec fn shot_color() -> Color {
    Color { r: 0x4b, g: 0x07, b: 0x1a, a: 255 }
}

impl Model {
    /// Steers the player, lets it jump off the cloud it stands on, and shoots
    /// toward the cursor once the cooldown has passed.
    pub fn player_control(&mut self, input: PlayerInput, delta_time: Time, now: Instant)
        requires
            old(self).wf(),
            valid_delta(delta_time as int),
            input.cursor.wf(),
            input.cursor.world_width == old(self).world_width,
        ensures
            final(self).wf(),
            player_control_post(old(self), final(self), input, delta_time, now),
    {
        let pid = self.player.body;
        assert(self.doodles@.contains_key(pid));
        let (position, velocity, grounded, shoot_timer, mass) = match self.doodles.get(pid) {
            Some(d) => (
                d.body.collider.position,
                d.body.velocity,
                d.grounded,
                d.shoot_timer,
                d.body.mass,
            ),
            None => (self.camera.center, Vec2::zero(), None, now, 1),
        };
        let ground = match grounded {
            Some(c) => match self.clouds.get(c) {
                Some(cloud) => cloud.body.velocity.add(cloud.anchor_velocity).x,
                None => 0,
            },
            None => 0,
        };
        let input_x = crate::geometry::clamp_abs(input.input_dir.x, UNIT);
        let target = input_x * WALK_SPEED / UNIT + ground;
        let reach = ACCELERATION * delta_time / SECOND;
        let change = crate::geometry::clamp_abs(target - velocity.x, reach);
        let mut v = Vec2 {
            x: crate::geometry::clamp_i128(velocity.x as i128 + change as i128, -LIMIT, LIMIT),
            y: velocity.y,
        };
        if input.jump {
            if let Some(c) = grounded {
                // A stale reference to a cloud that is gone reads as not grounded.
                match self.clouds.get_mut(c) {
                    Some(cloud) => {
                        v = v.add(Vec2 { x: 0, y: JUMP_SPEED });
                        // Push off the cloud
                        let push = Vec2 { x: 0, y: JUMP_SPEED }.scale(mass, mass + cloud.body.mass);
                        cloud.body.velocity = cloud.body.velocity.sub(push);
                        self.effects.push(Effect::Sound(Sound::Jump));
                    },
                    None => {},
                }
            }
        }
        assert(self.clouds@ =~= pushed_off(old(self).clouds@, input, grounded, mass as int));
        let ghost after_jump = self.effects@;
        assert(after_jump =~= old(self).effects@ + (if jumps(input, grounded, old(self).clouds@) {
            seq![Effect::Sound(Sound::Jump)]
        } else {
            Seq::<Effect>::empty()
        }));
        assert(v == controlled_velocity(velocity, input, grounded, old(self).clouds@, delta_time as int));
        if input.shoot && shoot_timer.elapsed(now) > SHOOT_COOLDOWN {
            self.effects.push(Effect::Sound(Sound::Shoot));
            let dir = position.delta_to(input.cursor).normalize_or_zero();
            let mut proj = Projectile::new(
                Body::new(Collider::new(position, Shape::circle(PROJECTILE_RADIUS)), 1),
                PROJECTILE_LIFETIME,
            );
            proj.body.velocity = dir.scale(PROJECTILE_SPEED, 1);
            let new_id = self.projectiles.insert(proj);
            assert(!old(self).projectiles@.contains_key(new_id));
            assert(proj == shot(position, dir));
            // Recoil
            v = v.sub(dir.scale(RECOIL, 1));
            self.effects.push(
                Effect::Particles(
                    Burst {
                        intensity: SHOT_BURST,
                        position,
                        velocity: dir.scale(3, 1),
                        color: Color::rgb(0x4b, 0x07, 0x1a),
                    },
                ),
            );
            match self.doodles.get_mut(pid) {
                Some(d) => {
                    d.body.velocity = v;
                    d.shoot_timer = now;
                },
                None => {},
            }
            assert(self.effects@ =~= after_jump + seq![
                Effect::Sound(Sound::Shoot),
                Effect::Particles(
                    Burst {
                        intensity: SHOT_BURST,
                        position,
                        velocity: dir.times(3, 1),
                        color: shot_color(),
                    },
                ),
            ]);
        } else {
            match self.doodles.get_mut(pid) {
                Some(d) => {
                    d.body.velocity = v;
                },
                None => {},
            }
        }
        assert(self.doodles@.dom() =~= old(self).doodles@.dom());
    }

    /// Moves the camera's target up (never down) toward the player, and the
    /// camera's centre a share `dt / CAMERA_TIME` (at most all) of the way to
    /// the target.
    pub fn camera_control(&mut self, delta_time: Time)
        requires
            old(self).wf(),
            valid_delta(delta_time as int),
        ensures
            final(self).wf(),
            camera_control_post(old(self), final(self), delta_time),
    {
        let pid = self.player.body;
        assert(self.doodles@.contains_key(pid));
        let player = match self.doodles.get(pid) {
            Some(d) => d.body.collider.position,
            None => self.camera.target_position,
        };
        let d = self.camera.target_position.delta_to(player);
        let up = Vec2 { x: d.x, y: if d.y > 0 { d.y } else { 0 } };
        self.camera.target_position.move_by(up);
        let delta = self.camera.center.delta_to(self.camera.target_position);
        let share = if delta_time < CAMERA_TIME {
            delta_time
        } else {
            CAMERA_TIME
        };
        self.camera.center.move_by(delta.scale(share, CAMERA_TIME));
    }
}

/// What `Model::player_control` makes of `a`.
pub open spec fn player_control_post(a: &Model, b: &Model, input: PlayerInput, delta_time: Time, now: Instant) -> bool {
    &&& (b.same_scalars(a))
    &&& (b.doodles@.dom() == a.doodles@.dom())
    &&& (b.doodle().grounded == a.doodle().grounded)
    &&& (b.doodle().coyote_timer == a.doodle().coyote_timer)
    &&& (b.doodle().active_triggers@ == a.doodle().active_triggers@)
    &&& (b.doodle().body.collider == a.doodle().body.collider)
    &&& (b.doodle().body.mass == a.doodle().body.mass)
    &&& (b.birds@ == a.birds@)
    &&& (b.triggers@ == a.triggers@)
    &&& (b.particles@ == a.particles@)
    &&& (b.clouds@ == pushed_off(
            a.clouds@,
            input,
            a.doodle().grounded,
            a.doodle().body.mass as int))
    &&& (({
            let v = controlled_velocity(
                a.doodle().body.velocity,
                input,
                a.doodle().grounded,
                a.clouds@,
                delta_time as int,
            );
            let pos = a.doodle().body.collider.position;
            let dir = pos.delta_spec(input.cursor).unit_dir();
            let jumped = if jumps(input, a.doodle().grounded, a.clouds@) {
                seq![Effect::Sound(Sound::Jump)]
            } else {
                Seq::<Effect>::empty()
            };
            if input.shoot && a.doodle().shoot_timer.elapsed_spec(now)
                > SHOOT_COOLDOWN {
                &&& b.doodle().shoot_timer == now
                &&& b.doodle().body.velocity == v.minus(dir.times(RECOIL as int, 1))
                &&& exists|id: Id|
                    !a.projectiles@.contains_key(id) && b.projectiles@
                        == a.projectiles@.insert(id, shot(pos, dir))
                &&& b.effects@ == a.effects@ + jumped + seq![
                    Effect::Sound(Sound::Shoot),
                    Effect::Particles(
                        Burst {
                            intensity: SHOT_BURST,
                            position: pos,
                            velocity: dir.times(3, 1),
                            color: shot_color(),
                        },
                    ),
                ]
            } else {
                &&& b.doodle().shoot_timer == a.doodle().shoot_timer
                &&& b.doodle().body.velocity == v
                &&& b.projectiles@ == a.projectiles@
                &&& b.effects@ == a.effects@ + jumped
            }
    }))
}

/// What `Model::camera_control` makes of `a`.
pub open spec fn camera_control_post(a: &Model, b: &Model, delta_time: Time) -> bool {
    &&& (({
            let player = a.doodle().body.collider.position;
            let d = a.camera.target_position.delta_spec(player);
            let up = Vec2 { x: d.x, y: if d.y > 0 { d.y } else { 0 } };
            let target = a.camera.target_position.moved_spec(up);
            let share = if delta_time < CAMERA_TIME { delta_time as int } else { CAMERA_TIME as int };
            &&& b.camera.target_position == target
            &&& b.camera.center == a.camera.center.moved_spec(
                a.camera.center.delta_spec(target).times(share, CAMERA_TIME as int),
            )
            &&& b.camera.fov == a.camera.fov
    }))
    &&& (b.camera.target_position.pos.y >= a.camera.target_position.pos.y)
    &&& (b.time == a.time)
    &&& (b.score == a.score)
    &&& (b.world_width == a.world_width)
    &&& (b.generated_height == a.generated_height)
    &&& (b.next_bird == a.next_bird)
    &&& (b.player == a.player)
    &&& (b.session_end == a.session_end)
    &&& (b.doodles@ == a.doodles@)
    &&& (b.birds@ == a.birds@)
    &&& (b.clouds@ == a.clouds@)
    &&& (b.projectiles@ == a.projectiles@)
    &&& (b.triggers@ == a.triggers@)
    &&& (b.particles@ == a.particles@)
    &&& (b.effects@ == a.effects@)
}

} // verus!
