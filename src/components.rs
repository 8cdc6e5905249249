use vstd::prelude::*;
use crate::arena::Id;
use crate::collider::{Collider, Shape};
use crate::geometry::{Vec2, LIMIT};
use crate::position::{valid_width, Position, PositionCylinder};

verus! {

/// A duration or a point in time, in microseconds.
pub type Time = i64;

/// A coordinate, in micro-units.
pub type Coord = i64;

/// Largest mass of a body.
pub const MASS_LIMIT: i64 = 1_000_000;

/// Longest step of the simulation: one minute. This is a range bound of the
/// fixed-point arithmetic: the products of a step length with the speeds and
/// rates of the simulation are proved free of overflow up to it.
pub const MAX_DELTA: i64 = 60_000_000;

pub const CLOUD_WIDTH: i64 = 1_500_000;
pub const CLOUD_HEIGHT: i64 = 500_000;
pub const BIRD_RADIUS: i64 = 500_000;
pub const BIRD_LIFETIME: i64 = 5_000_000;
pub const SPRING_SIZE: i64 = 400_000;
pub const SPRING_OFFSET: i64 = 300_000;
pub const COIN_RADIUS: i64 = 300_000;
pub const COIN_OFFSET: i64 = 500_000;
pub const PARTICLE_RADIUS: i64 = 100_000;
pub const PARTICLE_LIFETIME: i64 = 600_000;

#[verifier::external_type_specification]
#[verifier::external_body]
pub struct ExStdInstant(std::time::Instant);

/// Relies on std::time::Instant::now: a reading of the monotonic clock,
/// whatever it is.
#[verifier::external_body]
fn clock_start() -> (r: std::time::Instant) {
    std::time::Instant::now()
}

/// Relies on std::time::Instant::elapsed: the monotonic time since `start`,
/// whatever it is.
#[verifier::external_body]
fn clock_elapsed(start: &std::time::Instant) -> (r: core::time::Duration) {
    start.elapsed()
}

/// Relies on core::time::Duration::as_micros: the whole microseconds of `d`,
/// converted to 64 bits.
#[verifier::external_body]
fn duration_micros(d: core::time::Duration) -> (r: u64) {
    d.as_micros() as u64
}

/// The monotonic clock that timestamps count from.
pub struct Clock {
    start: std::time::Instant,
}

impl Clock {
    /// A clock that reads zero now.
    pub fn new() -> (r: Clock) {
        Clock { start: clock_start() }
    }

    /// The time since the clock was made.
    pub fn now(&self) -> (r: Instant) {
        Instant { micros: duration_micros(clock_elapsed(&self.start)) }
    }
}

/// Shared physical state of every moving entity.
#[derive(Clone, Copy, Debug, PartialEq, Eq, Structural)]
pub struct Body {
    pub collider: Collider,
    pub velocity: Vec2,
    pub mass: i64,
}

impl Body {
    /// Well formed, in a world of width `w`.
    pub open spec fn wf_in(self, w: i64) -> bool {
        &&& self.collider.wf()
        &&& self.collider.position.world_width == w
        &&& self.velocity.wf()
        &&& 0 < self.mass <= MASS_LIMIT
    }

    /// A body at rest.
    pub fn new(collider: Collider, mass: i64) -> (r: Body)
        ensures
            r == (Body { collider, velocity: Vec2 { x: 0, y: 0 }, mass }),
    {
        Body { collider, velocity: Vec2 { x: 0, y: 0 }, mass }
    }
}

/// A reading of the monotonic clock, in microseconds.
#[derive(Clone, Copy, Debug, PartialEq, Eq, Structural)]
pub struct Instant {
    pub micros: u64,
}

impl Instant {
    pub fn from_micros(micros: u64) -> (r: Instant)
        ensures
            r.micros == micros,
    {
        Instant { micros }
    }

    pub open spec fn elapsed_spec(self, now: Instant) -> int {
        if now.micros >= self.micros {
            now.micros - self.micros
        } else {
            0
        }
    }

    /// Microseconds from `self` until `now`; zero if `now` is earlier.
    pub fn elapsed(&self, now: Instant) -> (r: u64)
        ensures
            r == self.elapsed_spec(now),
    {
        now.micros.saturating_sub(self.micros)
    }
}

/// A countdown within `[0, max]`.
#[derive(Clone, Copy, Debug, PartialEq, Eq, Structural)]
pub struct Lifetime {
    pub value: i64,
    pub max: i64,
}

impl Lifetime {
    pub open spec fn wf(self) -> bool {
        0 <= self.value <= self.max <= LIMIT
    }

    /// The countdown after `delta` more (or, when negative, less) time.
    pub open spec fn changed(self, delta: int) -> Lifetime {
        Lifetime {
            value: (if self.value + delta < 0 {
                0
            } else if self.value + delta > self.max {
                self.max as int
            } else {
                self.value + delta
            }) as i64,
            max: self.max,
        }
    }

    /// A full countdown of `max`.
    pub fn new_max(max: i64) -> (r: Lifetime)
        requires
            0 <= max <= LIMIT,
        ensures
            r == (Lifetime { value: max, max }),
            r.wf(),
    {
        Lifetime { value: max, max }
    }

    pub fn change(&mut self, delta: i64)
        requires
            old(self).wf(),
            -LIMIT <= delta <= LIMIT,
        ensures
            *final(self) == old(self).changed(delta as int),
            final(self).wf(),
    {
        let v = self.value + delta;
        self.value = if v < 0 {
            0
        } else if v > self.max {
            self.max
        } else {
            v
        };
    }

    pub fn is_min(&self) -> (r: bool)
        ensures
            r == (self.value == 0),
    {
        self.value == 0
    }
}

/// The player's avatar.
pub struct Doodle {
    pub body: Body,
    /// The cloud the doodle stands on, if any.
    pub grounded: Option<Id>,
    /// The triggers it overlapped in the last step.
    pub active_triggers: Vec<Id>,
    /// When it last landed on a cloud.
    pub coyote_timer: Instant,
    /// When it last shot.
    pub shoot_timer: Instant,
}

impl Doodle {
    pub open spec fn wf_in(self, w: i64) -> bool {
        self.body.wf_in(w)
    }

    pub fn new(body: Body, now: Instant) -> (r: Doodle)
        ensures
            r.body == body,
            r.grounded is None,
            r.active_triggers@ == Seq::<Id>::empty(),
            r.coyote_timer == now,
            r.shoot_timer == now,
    {
        Doodle {
            body,
            grounded: None,
            active_triggers: Vec::new(),
            coyote_timer: now,
            shoot_timer: now,
        }
    }
}

/// A springy platform, pulled back toward its anchor.
#[derive(Clone, Copy, Debug, PartialEq, Eq, Structural)]
pub struct Cloud {
    pub body: Body,
    pub anchor: Position,
    pub anchor_velocity: Vec2,
}

impl Cloud {
    pub open spec fn wf_in(self, w: i64) -> bool {
        &&& self.body.wf_in(w)
        &&& self.anchor.wf()
        &&& self.anchor.world_width == w
        &&& self.anchor_velocity.wf()
    }

    /// A resting cloud anchored where it stands: 1.5 by 0.5 units, mass 5.
    pub fn new(position: Position) -> (r: Cloud)
        ensures
            r == cloud_at(position),
    {
        let body = Body::new(
            Collider::new(position, Shape::rectangle(CLOUD_WIDTH, CLOUD_HEIGHT)),
            5,
        );
        Cloud { anchor: body.collider.position, anchor_velocity: Vec2::zero(), body }
    }
}

/// A resting cloud anchored at `position`.
pub open spec fn cloud_at(position: Position) -> Cloud {
    Cloud {
        body: Body {
            collider: Collider {
                position,
                rotation: 0,
                shape: Shape::Rectangle { width: CLOUD_WIDTH, height: CLOUD_HEIGHT },
            },
            velocity: Vec2 { x: 0, y: 0 },
            mass: 5,
        },
        anchor: position,
        anchor_velocity: Vec2 { x: 0, y: 0 },
    }
}

/// A shot fired by the player.
#[derive(Clone, Copy, Debug, PartialEq, Eq, Structural)]
pub struct Projectile {
    pub body: Body,
    pub lifetime: Lifetime,
}

impl Projectile {
    pub open spec fn wf_in(self, w: i64) -> bool {
        self.body.wf_in(w) && self.lifetime.wf()
    }

    pub fn new(body: Body, lifetime: Time) -> (r: Projectile)
        requires
            0 <= lifetime <= LIMIT,
        ensures
            r == (Projectile { body, lifetime: Lifetime { value: lifetime, max: lifetime } }),
    {
        Projectile { body, lifetime: Lifetime::new_max(lifetime) }
    }
}

/// An enemy flying across the world.
#[derive(Clone, Copy, Debug, PartialEq, Eq, Structural)]
pub struct Bird {
    pub body: Body,
    pub lifetime: Lifetime,
}

impl Bird {
    pub open spec fn wf_in(self, w: i64) -> bool {
        self.body.wf_in(w) && self.lifetime.wf()
    }

    /// A bird of radius 0.5 and mass 30 flying horizontally at `speed`, with five seconds to live.
    pub fn new(position: Position, speed: Coord) -> (r: Bird)
        ensures
            r == bird_at(position, speed),
    {
        let mut body = Body::new(Collider::new(position, Shape::circle(BIRD_RADIUS)), 30);
        body.velocity = Vec2::new(speed, 0);
        Bird { body, lifetime: Lifetime::new_max(BIRD_LIFETIME) }
    }
}

/// A bird at `position` flying horizontally at `speed`.
pub open spec fn bird_at(position: Position, speed: Coord) -> Bird {
    Bird {
        body: Body {
            collider: Collider { position, rotation: 0, shape: Shape::Circle { radius: BIRD_RADIUS } },
            velocity: Vec2 { x: speed, y: 0 },
            mass: 30,
        },
        lifetime: Lifetime { value: BIRD_LIFETIME, max: BIRD_LIFETIME },
    }
}

/// What a trigger does when the player enters it.
#[derive(Clone, Copy, Debug, PartialEq, Eq, Structural)]
pub enum TriggerKind {
    Spring,
    Coin,
}

/// Ties a trigger to a cloud: the trigger stands at `relative_pos` from the cloud.
#[derive(Clone, Copy, Debug, PartialEq, Eq, Structural)]
pub struct Attachment {
    pub relative_pos: Vec2,
    pub cloud: Id,
}

/// An area that acts on the player when entered.
#[derive(Clone, Copy, Debug, PartialEq, Eq, Structural)]
pub struct Trigger {
    pub kind: TriggerKind,
    pub collider: Collider,
    /// The cloud the trigger moves together with.
    pub attached_to: Option<Attachment>,
}

impl Trigger {
    pub open spec fn wf_in(self, w: i64) -> bool {
        &&& self.collider.wf()
        &&& self.collider.position.world_width == w
        &&& self.attached_to matches Some(a) ==> a.relative_pos.wf()
    }

    /// A 0.4 by 0.4 spring standing 0.3 units above the given cloud.
    pub fn spring(cloud: Id, world_width: Coord) -> (r: Trigger)
        requires
            valid_width(world_width as int),
        ensures
            r == spring_on(cloud, world_width),
            r.wf_in(world_width),
    {
        let position = PositionCylinder::zero(world_width);
        let collider = Collider::new(position, Shape::rectangle(SPRING_SIZE, SPRING_SIZE));
        Trigger {
            kind: TriggerKind::Spring,
            collider,
            attached_to: Some(Attachment { relative_pos: Vec2::new(0, SPRING_OFFSET), cloud }),
        }
    }

    /// A coin of radius 0.3, standing 0.5 units above the given cloud if any.
    pub fn coin(cloud: Option<Id>, world_width: Coord) -> (r: Trigger)
        requires
            valid_width(world_width as int),
        ensures
            r == coin_on(cloud, world_width),
            r.kind == TriggerKind::Coin,
            r.collider == (Collider {
                position: PositionCylinder { pos: Vec2 { x: 0, y: 0 }, world_width },
                rotation: 0,
                shape: Shape::Circle { radius: COIN_RADIUS },
            }),
            r.attached_to == match cloud {
                Some(c) => Some(Attachment { relative_pos: Vec2 { x: 0, y: COIN_OFFSET }, cloud: c }),
                None => None,
            },
            r.wf_in(world_width),
    {
        let position = PositionCylinder::zero(world_width);
        let collider = Collider::new(position, Shape::circle(COIN_RADIUS));
        let attached_to = match cloud {
            Some(c) => Some(Attachment { relative_pos: Vec2::new(0, COIN_OFFSET), cloud: c }),
            None => None,
        };
        Trigger { kind: TriggerKind::Coin, collider, attached_to }
    }
}

/// A spring standing on `cloud`.
pub open spec fn spring_on(cloud: Id, world_width: Coord) -> Trigger {
    Trigger {
        kind: TriggerKind::Spring,
        collider: Collider {
            position: PositionCylinder { pos: Vec2 { x: 0, y: 0 }, world_width },
            rotation: 0,
            shape: Shape::Rectangle { width: SPRING_SIZE, height: SPRING_SIZE },
        },
        attached_to: Some(Attachment { relative_pos: Vec2 { x: 0, y: SPRING_OFFSET }, cloud }),
    }
}

/// A coin, standing on `cloud` if there is one.
pub open spec fn coin_on(cloud: Option<Id>, world_width: Coord) -> Trigger {
    Trigger {
        kind: TriggerKind::Coin,
        collider: Collider {
            position: PositionCylinder { pos: Vec2 { x: 0, y: 0 }, world_width },
            rotation: 0,
            shape: Shape::Circle { radius: COIN_RADIUS },
        },
        attached_to: match cloud {
            Some(c) => Some(Attachment { relative_pos: Vec2 { x: 0, y: COIN_OFFSET }, cloud: c }),
            None => None,
        },
    }
}

/// An RGBA colour.
#[derive(Clone, Copy, Debug, PartialEq, Eq, Structural)]
pub struct Color {
    pub r: u8,
    pub g: u8,
    pub b: u8,
    pub a: u8,
}

impl Color {
    /// An opaque colour.
    pub fn rgb(r: u8, g: u8, b: u8) -> (c: Color)
        ensures
            c == (Color { r, g, b, a: 255 }),
    {
        Color { r, g, b, a: 255 }
    }
}

/// A short-lived speck of colour that takes part in no collision.
#[derive(Clone, Copy, Debug, PartialEq, Eq, Structural)]
pub struct Particle {
    pub body: Body,
    pub color: Color,
    pub lifetime: Lifetime,
}

impl Particle {
    pub open spec fn wf_in(self, w: i64) -> bool {
        self.body.wf_in(w) && self.lifetime.wf()
    }

    /// A particle of radius 0.1 and mass 1 with 0.6 seconds to live.
    pub fn new(position: Position, velocity: Vec2, color: Color) -> (r: Particle)
        ensures
            r == (Particle {
                body: Body {
                    collider: Collider {
                        position,
                        rotation: 0,
                        shape: Shape::Circle { radius: PARTICLE_RADIUS },
                    },
                    velocity,
                    mass: 1,
                },
                color,
                lifetime: Lifetime { value: PARTICLE_LIFETIME, max: PARTICLE_LIFETIME },
            }),
    {
        let mut body = Body::new(Collider::new(position, Shape::circle(PARTICLE_RADIUS)), 1);
        body.velocity = velocity;
        Particle { body, color, lifetime: Lifetime::new_max(PARTICLE_LIFETIME) }
    }
}

} // verus!
