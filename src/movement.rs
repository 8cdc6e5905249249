use vstd::prelude::*;
use crate::arena::{Arena, Id};
use crate::components::{Bird, Cloud, Particle, Projectile, Time, Trigger, MAX_DELTA};
use crate::geometry::{Vec2, SECOND, UNIT};
use crate::model::Model;
use crate::position::PositionCylinder;

verus! {

/// Downward acceleration of the player, in micro-units per second squared.
pub const GRAVITY: i64 = 9_800_000;

/// Top speed of the player.
pub const MAX_SPEED: i64 = 40_000_000;

/// How strongly a cloud's own velocity is damped, per second.
pub const DAMPING: i64 = 10;

/// How strongly a cloud is pulled back to its anchor.
pub const ELASTICITY: i64 = 200;

/// Cap on the squared distance (in square units, times `UNIT`) that the pull grows with.
pub const SPRING_CAP: i64 = 10_000_000;

/// Farthest a cloud can be from its anchor.
pub const MAX_CLOUD_OFFSET: i64 = 5_000_000;

/// A valid step length.
pub open spec fn valid_delta(dt: int) -> bool {
    0 <= dt <= MAX_DELTA
}

/// The displacement of something moving at `v` for `dt`.
pub open spec fn travel(v: Vec2, dt: int) -> Vec2 {
    v.times(dt, SECOND as int)
}

/// The velocity change that gravity gives in `dt`.
pub open spec fn gravity_delta(dt: int) -> Vec2 {
    Vec2 { x: 0, y: (-GRAVITY) as i64 }.times(dt, SECOND as int)
}

pub open spec fn min_spec(a: int, b: int) -> int {
    if a < b {
        a
    } else {
        b
    }
}

/// A bird, projectile or particle after flying `dt` at its own velocity.
pub open spec fn flown(p: PositionCylinder, v: Vec2, dt: int) -> PositionCylinder {
    p.moved_spec(travel(v, dt))
}

pub open spec fn bird_moved(b: Bird, dt: int) -> Bird {
    Bird {
        body: crate::components::Body {
            collider: crate::collider::Collider {
                position: flown(b.body.collider.position, b.body.velocity, dt),
                ..b.body.collider
            },
            ..b.body
        },
        ..b
    }
}

pub open spec fn projectile_moved(p: Projectile, dt: int) -> Projectile {
    Projectile {
        body: crate::components::Body {
            collider: crate::collider::Collider {
                position: flown(p.body.collider.position, p.body.velocity, dt),
                ..p.body.collider
            },
            ..p.body
        },
        ..p
    }
}

/// The anchor of a cloud after `dt`.
pub open spec fn anchor_moved(c: Cloud, dt: int) -> PositionCylinder {
    c.anchor.moved_spec(travel(c.anchor_velocity, dt))
}

/// The cloud's velocity after damping and the pull toward its (moved) anchor.
pub open spec fn cloud_velocity(c: Cloud, dt: int) -> Vec2 {
    let v0 = c.body.velocity;
    let damped = v0.minus(v0.clamped_len(UNIT as int).times(DAMPING * dt, SECOND as int));
    let dir = c.body.collider.position.delta_spec(anchor_moved(c, dt));
    let k = min_spec(dir.len_sq() / (UNIT as int), SPRING_CAP as int);
    damped.plus(dir.unit_dir().times(k, UNIT as int).times(ELASTICITY * dt, SECOND as int))
}

/// Where the cloud ends up: moved with its velocity and its anchor's, then held
/// within `MAX_CLOUD_OFFSET` of the anchor.
pub open spec fn cloud_position(c: Cloud, dt: int) -> PositionCylinder {
    let anchor = anchor_moved(c, dt);
    let moved = c.body.collider.position.moved_spec(
        travel(cloud_velocity(c, dt).plus(c.anchor_velocity), dt),
    );
    anchor.moved_spec(anchor.delta_spec(moved).clamped_len(MAX_CLOUD_OFFSET as int))
}

pub open spec fn cloud_moved(c: Cloud, dt: int) -> Cloud {
    Cloud {
        body: crate::components::Body {
            collider: crate::collider::Collider {
                position: cloud_position(c, dt),
                ..c.body.collider
            },
            velocity: cloud_velocity(c, dt),
            ..c.body
        },
        anchor: anchor_moved(c, dt),
        ..c
    }
}

/// Where an attached trigger stands given the clouds; others stay put.
pub open spec fn trigger_attached(t: Trigger, clouds: Map<Id, Cloud>) -> Trigger {
    match t.attached_to {
        Some(a) => if clouds.contains_key(a.cloud) {
            Trigger {
                collider: crate::collider::Collider {
                    position: clouds[a.cloud].body.collider.position.moved_spec(a.relative_pos),
                    ..t.collider
                },
                ..t
            }
        } else {
            t
        },
        None => t,
    }
}

/// A projectile `dt` older; gone once its lifetime runs out.
pub open spec fn projectile_aged(p: Projectile, dt: int) -> Option<Projectile> {
    let l = p.lifetime.changed(-dt);
    if l.value == 0 {
        None
    } else {
        Some(Projectile { lifetime: l, ..p })
    }
}

/// A particle `dt` older and moved; gone once its lifetime runs out.
pub open spec fn particle_aged(p: Particle, dt: int) -> Option<Particle> {
    let l = p.lifetime.changed(-dt);
    if l.value == 0 {
        None
    } else {
        Some(
            Particle {
                body: crate::components::Body {
                    collider: crate::collider::Collider {
                        position: flown(p.body.collider.position, p.body.velocity, dt),
                        ..p.body.collider
                    },
                    ..p.body
                },
                lifetime: l,
                ..p
            },
        )
    }
}

fn move_bird(b: &Bird, dt: Time, w: i64) -> (r: Option<Bird>)
    requires
        b.wf_in(w),
        valid_delta(dt as int),
    ensures
        r == Some(bird_moved(*b, dt as int)),
        bird_moved(*b, dt as int).wf_in(w),
{
    let mut n = *b;
    n.body.collider.position.move_by(b.body.velocity.scale(dt, SECOND));
    Some(n)
}

fn move_projectile(p: &Projectile, dt: Time, w: i64) -> (r: Option<Projectile>)
    requires
        p.wf_in(w),
        valid_delta(dt as int),
    ensures
        r == Some(projectile_moved(*p, dt as int)),
        projectile_moved(*p, dt as int).wf_in(w),
{
    let mut n = *p;
    n.body.collider.position.move_by(p.body.velocity.scale(dt, SECOND));
    Some(n)
}

fn move_cloud(c: &Cloud, dt: Time, w: i64) -> (r: Option<Cloud>)
    requires
        c.wf_in(w),
        valid_delta(dt as int),
    ensures
        r == Some(cloud_moved(*c, dt as int)),
        cloud_moved(*c, dt as int).wf_in(w),
{
    let mut n = *c;
    // Move the anchor
    n.anchor.move_by(c.anchor_velocity.scale(dt, SECOND));
    // Dampen
    let v0 = c.body.velocity;
    let damp = v0.clamp_len(UNIT).scale(DAMPING * dt, SECOND);
    let damped = v0.sub(damp);
    // Move toward the anchor
    let dir = c.body.collider.position.delta_to(n.anchor);
    let sq = dir.len_squared() / (UNIT as u128);
    let k: i64 = if sq < SPRING_CAP as u128 {
        sq as i64
    } else {
        SPRING_CAP
    };
    let pull = dir.normalize_or_zero().scale(k, UNIT).scale(ELASTICITY * dt, SECOND);
    let v = damped.add(pull);
    n.body.velocity = v;
    let moved = c.body.collider.position.moved(v.add(c.anchor_velocity).scale(dt, SECOND));
    n.body.collider.position = n.anchor.moved(
        n.anchor.delta_to(moved).clamp_len(MAX_CLOUD_OFFSET),
    );
    Some(n)
}

fn attach_trigger(t: &Trigger, clouds: &Arena<Cloud>, w: i64) -> (r: Option<Trigger>)
    requires
        t.wf_in(w),
        forall|id: Id| #[trigger] clouds@.contains_key(id) ==> clouds@[id].wf_in(w),
    ensures
        r == Some(trigger_attached(*t, clouds@)),
        trigger_attached(*t, clouds@).wf_in(w),
{
    match t.attached_to {
        Some(a) => match clouds.get(a.cloud) {
            Some(c) => {
                let mut n = *t;
                n.collider.position = c.body.collider.position.moved(a.relative_pos);
                Some(n)
            },
            None => Some(*t),
        },
        None => Some(*t),
    }
}

fn age_projectile(p: &Projectile, dt: Time, w: i64) -> (r: Option<Projectile>)
    requires
        p.wf_in(w),
        valid_delta(dt as int),
    ensures
        r == projectile_aged(*p, dt as int),
        r matches Some(n) ==> n.wf_in(w),
{
    let mut n = *p;
    n.lifetime.change(-dt);
    if n.lifetime.is_min() {
        None
    } else {
        Some(n)
    }
}

pub(crate) fn age_particle(p: &Particle, dt: Time, w: i64) -> (r: Option<Particle>)
    requires
        p.wf_in(w),
        valid_delta(dt as int),
    ensures
        r == particle_aged(*p, dt as int),
        r matches Some(n) ==> n.wf_in(w),
{
    let mut n = *p;
    n.lifetime.change(-dt);
    if n.lifetime.is_min() {
        None
    } else {
        n.body.collider.position.move_by(p.body.velocity.scale(dt, SECOND));
        Some(n)
    }
}

impl Model {
    /// Everything but the entity stores and the effects is the same in both.
    pub open spec fn same_scalars(&self, o: &Model) -> bool {
        &&& self.time == o.time
        &&& self.score == o.score
        &&& self.world_width == o.world_width
        &&& self.generated_height == o.generated_height
        &&& self.next_bird == o.next_bird
        &&& self.camera == o.camera
        &&& self.player == o.player
        &&& self.session_end == o.session_end
    }

    /// Pulls the player down.
    pub fn gravity(&mut self, delta_time: Time)
        requires
            old(self).wf(),
            valid_delta(delta_time as int),
        ensures
            final(self).wf(),
            gravity_post(old(self), final(self), delta_time),
    {
        let gravity = Vec2::new(0, -GRAVITY).scale(delta_time, SECOND);
        let id = self.player.body;
        assert(self.doodles@.contains_key(id));
        match self.doodles.get_mut(id) {
            Some(d) => {
                d.body.velocity = d.body.velocity.add(gravity);
            },
            None => {},
        }
        assert(self.doodles@.dom() =~= old(self).doodles@.dom());
    }

    /// Moves the player (at no more than `MAX_SPEED`), the birds, the clouds
    /// (anchors, damping and the pull back to the anchor) and the projectiles.
    pub fn movement(&mut self, delta_time: Time)
        requires
            old(self).wf(),
            valid_delta(delta_time as int),
        ensures
            final(self).wf(),
            movement_post(old(self), final(self), delta_time),
    {
        let w = self.world_width;
        let id = self.player.body;
        assert(self.doodles@.contains_key(id));
        match self.doodles.get_mut(id) {
            Some(d) => {
                let v = d.body.velocity.clamp_len(MAX_SPEED);
                d.body.velocity = v;
                d.body.collider.position.move_by(v.scale(delta_time, SECOND));
            },
            None => {},
        }
        assert(self.doodles@.dom() =~= old(self).doodles@.dom());

        let fly = |b: &Bird| -> (r: Option<Bird>)
            requires
                b.wf_in(w),
            ensures
                r == Some(bird_moved(*b, delta_time as int)),
                bird_moved(*b, delta_time as int).wf_in(w),
        {
            move_bird(b, delta_time, w)
        };
        self.birds.update_retain(fly);
        assert(self.birds@ =~= old(self).birds@.map_values(
            |b: Bird| bird_moved(b, delta_time as int),
        ));

        let drift = |c: &Cloud| -> (r: Option<Cloud>)
            requires
                c.wf_in(w),
            ensures
                r == Some(cloud_moved(*c, delta_time as int)),
                cloud_moved(*c, delta_time as int).wf_in(w),
        {
            move_cloud(c, delta_time, w)
        };
        self.clouds.update_retain(drift);
        assert(self.clouds@ =~= old(self).clouds@.map_values(
            |c: Cloud| cloud_moved(c, delta_time as int),
        ));

        let shoot = |p: &Projectile| -> (r: Option<Projectile>)
            requires
                p.wf_in(w),
            ensures
                r == Some(projectile_moved(*p, delta_time as int)),
                projectile_moved(*p, delta_time as int).wf_in(w),
        {
            move_projectile(p, delta_time, w)
        };
        self.projectiles.update_retain(shoot);
        assert(self.projectiles@ =~= old(self).projectiles@.map_values(
            |p: Projectile| projectile_moved(p, delta_time as int),
        ));
    }

    /// Puts every trigger attached to a live cloud at its offset from that cloud.
    pub fn attached_triggers(&mut self, delta_time: Time)
        requires
            old(self).wf(),
        ensures
            final(self).wf(),
            attached_triggers_post(old(self), final(self)),
    {
        let w = self.world_width;
        let clouds = &self.clouds;
        let follow = |t: &Trigger| -> (r: Option<Trigger>)
            requires
                t.wf_in(w),
            ensures
                r == Some(trigger_attached(*t, clouds@)),
                trigger_attached(*t, clouds@).wf_in(w),
        {
            attach_trigger(t, clouds, w)
        };
        self.triggers.update_retain(follow);
        assert(self.triggers@ =~= old(self).triggers@.map_values(
            |t: Trigger| trigger_attached(t, old(self).clouds@),
        ));
    }

    /// Counts the projectiles' lifetimes down and removes those that run out.
    pub fn lifetime(&mut self, delta_time: Time)
        requires
            old(self).wf(),
            valid_delta(delta_time as int),
        ensures
            final(self).wf(),
            lifetime_post(old(self), final(self), delta_time),
    {
        let w = self.world_width;
        let age = |p: &Projectile| -> (r: Option<Projectile>)
            requires
                p.wf_in(w),
            ensures
                r == projectile_aged(*p, delta_time as int),
                r matches Some(n) ==> n.wf_in(w),
        {
            age_projectile(p, delta_time, w)
        };
        self.projectiles.update_retain(age);
    }
}

/// A projectile after steps of the given lengths, one after another; `None`
/// once it has been removed.
pub open spec fn projectile_after(p: Projectile, dts: Seq<int>) -> Option<Projectile>
    decreases dts.len(),
{
    if dts.len() == 0 {
        Some(p)
    } else {
        match projectile_aged(p, dts[0]) {
            None => None,
            Some(q) => projectile_after(q, dts.subrange(1, dts.len() as int)),
        }
    }
}

pub open spec fn total(dts: Seq<int>) -> int
    decreases dts.len(),
{
    if dts.len() == 0 {
        0
    } else {
        dts[0] + total(dts.subrange(1, dts.len() as int))
    }
}

/// A projectile is removed once one or more steps adding up to at least its
/// remaining lifetime have passed.
pub proof fn projectile_expires(p: Projectile, dts: Seq<int>)
    requires
        p.lifetime.wf(),
        dts.len() > 0,
        forall|i: int| 0 <= i < dts.len() ==> dts[i] >= 0,
        total(dts) >= p.lifetime.value,
    ensures
        projectile_after(p, dts) is None,
    decreases dts.len(),
{
    if dts.len() > 0 {
        match projectile_aged(p, dts[0]) {
            None => {},
            Some(q) => {
                let rest = dts.subrange(1, dts.len() as int);
                assert forall|i: int| 0 <= i < rest.len() implies rest[i] >= 0 by {
                    assert(rest[i] == dts[i + 1]);
                }
                assert(q.lifetime.value == p.lifetime.value - dts[0]);
                assert(total(dts) == dts[0] + total(rest));
                if rest.len() == 0 {
                    assert(total(rest) == 0);
                }
                projectile_expires(q, rest);
            },
        }
    }
}

/// What `Model::gravity` makes of `a`.
pub open spec fn gravity_post(a: &Model, b: &Model, delta_time: Time) -> bool {
    &&& (b.same_scalars(a))
    &&& (b.doodles@.dom() == a.doodles@.dom())
    &&& (b.doodle().body.velocity == a.doodle().body.velocity.plus(
            gravity_delta(delta_time as int)))
    &&& (b.doodle().body.collider == a.doodle().body.collider)
    &&& (b.doodle().body.mass == a.doodle().body.mass)
    &&& (b.doodle().grounded == a.doodle().grounded)
    &&& (b.doodle().active_triggers@ == a.doodle().active_triggers@)
    &&& (b.doodle().coyote_timer == a.doodle().coyote_timer)
    &&& (b.doodle().shoot_timer == a.doodle().shoot_timer)
    &&& (b.birds@ == a.birds@)
    &&& (b.clouds@ == a.clouds@)
    &&& (b.projectiles@ == a.projectiles@)
    &&& (b.triggers@ == a.triggers@)
    &&& (b.particles@ == a.particles@)
    &&& (b.effects@ == a.effects@)
}

/// What `Model::movement` makes of `a`.
pub open spec fn movement_post(a: &Model, b: &Model, delta_time: Time) -> bool {
    &&& (b.same_scalars(a))
    &&& (b.doodles@.dom() == a.doodles@.dom())
    &&& (b.doodle().body.velocity == a.doodle().body.velocity.clamped_len(
            MAX_SPEED as int))
    &&& (b.doodle().body.collider.position == flown(
            a.doodle().body.collider.position,
            b.doodle().body.velocity,
            delta_time as int))
    &&& (b.doodle().body.collider.shape == a.doodle().body.collider.shape)
    &&& (b.doodle().body.collider.rotation == a.doodle().body.collider.rotation)
    &&& (b.doodle().body.mass == a.doodle().body.mass)
    &&& (b.doodle().grounded == a.doodle().grounded)
    &&& (b.doodle().active_triggers@ == a.doodle().active_triggers@)
    &&& (b.doodle().coyote_timer == a.doodle().coyote_timer)
    &&& (b.doodle().shoot_timer == a.doodle().shoot_timer)
    &&& (b.birds@ == a.birds@.map_values(
            |b: Bird| bird_moved(b, delta_time as int)))
    &&& (b.clouds@ == a.clouds@.map_values(
            |c: Cloud| cloud_moved(c, delta_time as int)))
    &&& (b.projectiles@ == a.projectiles@.map_values(
            |p: Projectile| projectile_moved(p, delta_time as int)))
    &&& (b.triggers@ == a.triggers@)
    &&& (b.particles@ == a.particles@)
    &&& (b.effects@ == a.effects@)
}

/// What `Model::attached_triggers` makes of `a`.
pub open spec fn attached_triggers_post(a: &Model, b: &Model) -> bool {
    &&& (b.same_scalars(a))
    &&& (b.doodles@ == a.doodles@)
    &&& (b.birds@ == a.birds@)
    &&& (b.clouds@ == a.clouds@)
    &&& (b.projectiles@ == a.projectiles@)
    &&& (b.triggers@ == a.triggers@.map_values(
            |t: Trigger| trigger_attached(t, a.clouds@)))
    &&& (b.particles@ == a.particles@)
    &&& (b.effects@ == a.effects@)
}

/// What `Model::lifetime` makes of `a`.
pub open spec fn lifetime_post(a: &Model, b: &Model, delta_time: Time) -> bool {
    &&& (b.same_scalars(a))
    &&& (b.doodles@ == a.doodles@)
    &&& (b.birds@ == a.birds@)
    &&& (b.clouds@ == a.clouds@)
    &&& (forall|id: Id|
            #![trigger b.projectiles@.contains_key(id)]
            #![trigger a.projectiles@.contains_key(id)]
            b.projectiles@.contains_key(id) <==> (a.projectiles@.contains_key(id) && projectile_aged(
                a.projectiles@[id],
                delta_time as int,
            ) is Some))
    &&& (forall|id: Id| #[trigger]
            b.projectiles@.contains_key(id) ==> Some(b.projectiles@[id])
                == projectile_aged(a.projectiles@[id], delta_time as int))
    &&& (b.triggers@ == a.triggers@)
    &&& (b.particles@ == a.particles@)
    &&& (b.effects@ == a.effects@)
}

} // verus!
