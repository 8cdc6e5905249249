use vstd::prelude::*;
use crate::components::{Instant, Time};
use crate::geometry::LIMIT;
use crate::arena::Id;
use crate::collision::{collide_birds_post, collide_clouds_post, collide_triggers_post};
use crate::control::{camera_control_post, player_control_post};
use crate::generation::{check_fall_post, despawn_below_post, generate_level_post, keeps};
use crate::model::{Burst, Effect, Model, PlayerInput};
use crate::movement::{attached_triggers_post, gravity_post, lifetime_post, movement_post};
use crate::particles::{added_exactly, burst_size, of_burst, update_particles_post};
use crate::movement::valid_delta;
use crate::position::HEIGHT_LIMIT;

verus! {

/// A burst whose particles can be placed in a world of width `w`.
pub open spec fn burst_ok(b: Burst, w: i64) -> bool {
    &&& b.position.wf()
    &&& b.position.world_width == w
    &&& b.velocity.wf()
    &&& 0 <= b.intensity <= i64::MAX - 999
}

fn check_burst(b: &Burst, w: i64) -> (r: bool)
    ensures
        r == burst_ok(*b, w),
{
    let p = b.position;
    let v = b.velocity;
    p.world_width == w && 0 < w && w <= LIMIT && 0 <= p.pos.x && p.pos.x < w && -HEIGHT_LIMIT
        <= p.pos.y && p.pos.y <= HEIGHT_LIMIT && -LIMIT <= v.x && v.x <= LIMIT && -LIMIT <= v.y
        && v.y <= LIMIT && 0 <= b.intensity && b.intensity <= i64::MAX - 999
}

/// `b` is `a` with the simulation time advanced by `dt`, held at `LIMIT`.
pub open spec fn time_advanced(a: &Model, b: &Model, dt: int) -> bool {
    &&& b.time == if a.time + dt > LIMIT {
        LIMIT as int
    } else {
        a.time + dt
    }
    &&& b.score == a.score
    &&& b.world_width == a.world_width
    &&& b.generated_height == a.generated_height
    &&& b.next_bird == a.next_bird
    &&& b.camera == a.camera
    &&& b.player == a.player
    &&& b.session_end == a.session_end
    &&& b.doodles@ == a.doodles@
    &&& b.birds@ == a.birds@
    &&& b.clouds@ == a.clouds@
    &&& b.projectiles@ == a.projectiles@
    &&& b.triggers@ == a.triggers@
    &&& b.particles@ == a.particles@
    &&& b.effects@ == a.effects@
}

/// `b` is `a` with particles added for the well-formed bursts among the
/// effects from index `from` on: every new particle belongs to one of them.
pub open spec fn bursts_frame(a: &Model, b: &Model, from: int) -> bool {
    &&& b.same_scalars(a)
    &&& b.doodles@ == a.doodles@
    &&& b.birds@ == a.birds@
    &&& b.clouds@ == a.clouds@
    &&& b.projectiles@ == a.projectiles@
    &&& b.triggers@ == a.triggers@
    &&& b.effects@ == a.effects@
    &&& keeps(a.particles@, b.particles@)
    &&& forall|id: Id| #[trigger]
        b.particles@.contains_key(id) && !a.particles@.contains_key(id) ==> exists|k: int|
            #![trigger a.effects@[k]]
            from <= k < a.effects@.len() && (a.effects@[k] matches Effect::Particles(bu) && of_burst(
                b.particles@[id],
                bu.position,
                bu.velocity,
                bu.color,
            ))
}

/// Fewest particles the effect makes in a world of width `w`: a well-formed
/// burst of at least one particle makes its rounded-up intensity.
pub open spec fn burst_min(e: Effect, w: i64) -> int {
    match e {
        Effect::Particles(b) => if burst_ok(b, w) && b.intensity >= 1000 {
            burst_size(b.intensity as int)
        } else {
            0
        },
        _ => 0,
    }
}

/// Most particles the effect makes: below one particle, a burst makes one by chance.
pub open spec fn burst_max(e: Effect, w: i64) -> int {
    match e {
        Effect::Particles(b) => if !burst_ok(b, w) || b.intensity == 0 {
            0
        } else if b.intensity >= 1000 {
            burst_size(b.intensity as int)
        } else {
            1
        },
        _ => 0,
    }
}

/// The sum of `burst_min` over the effects `from..to`.
pub open spec fn bursts_min(es: Seq<Effect>, from: int, to: int, w: i64) -> int
    decreases to - from,
{
    if to <= from {
        0
    } else {
        bursts_min(es, from, to - 1, w) + burst_min(es[to - 1], w)
    }
}

/// The sum of `burst_max` over the effects `from..to`.
pub open spec fn bursts_max(es: Seq<Effect>, from: int, to: int, w: i64) -> int
    decreases to - from,
{
    if to <= from {
        0
    } else {
        bursts_max(es, from, to - 1, w) + burst_max(es[to - 1], w)
    }
}

/// `b` is `a` with the particles of the bursts among the effects from index
/// `from` on: exactly the new ids `ids`, as many as those bursts make, each
/// particle belonging to one of them.
pub open spec fn bursts_post(a: &Model, b: &Model, from: int) -> bool {
    &&& bursts_frame(a, b, from)
    &&& exists|ids: Seq<Id>|
        #[trigger] added_exactly(a.particles@, b.particles@, ids) && bursts_min(
            a.effects@,
            from,
            a.effects@.len() as int,
            a.world_width,
        ) <= ids.len() <= bursts_max(a.effects@, from, a.effects@.len() as int, a.world_width)
}

/// Adding `x` and then `y` adds `x + y`.
pub proof fn lemma_added_concat<V>(
    a: Map<Id, V>,
    m: Map<Id, V>,
    b: Map<Id, V>,
    x: Seq<Id>,
    y: Seq<Id>,
)
    requires
        added_exactly(a, m, x),
        added_exactly(m, b, y),
    ensures
        added_exactly(a, b, x + y),
{
    let z = x + y;
    assert forall|i: int| 0 <= i < z.len() implies !a.contains_key(#[trigger] z[i]) by {
        if i >= x.len() {
            assert(z[i] == y[i - x.len()]);
            assert(!m.contains_key(y[i - x.len()]));
        } else {
            assert(z[i] == x[i]);
        }
    }
    assert forall|i: int, j: int| 0 <= i < j < z.len() implies z[i] != z[j] by {
        if j >= x.len() && i < x.len() {
            assert(z[j] == y[j - x.len()]);
            assert(!m.contains_key(y[j - x.len()]));
            assert(x.to_set().contains(x[i]));
            assert(m.dom().contains(x[i]));
        } else if i >= x.len() {
            assert(z[i] == y[i - x.len()] && z[j] == y[j - x.len()]);
        } else {
            assert(z[i] == x[i] && z[j] == x[j]);
        }
    }
    assert(z.to_set() =~= x.to_set().union(y.to_set())) by {
        assert forall|e: Id| z.to_set().contains(e) <==> x.to_set().union(y.to_set()).contains(e) by {
            if z.contains(e) {
                let i = choose|i: int| 0 <= i < z.len() && z[i] == e;
                if i < x.len() {
                    assert(x[i] == e);
                } else {
                    assert(y[i - x.len()] == e);
                }
            }
            if x.contains(e) {
                let i = choose|i: int| 0 <= i < x.len() && x[i] == e;
                assert(z[i] == e);
            }
            if y.contains(e) {
                let i = choose|i: int| 0 <= i < y.len() && y[i] == e;
                assert(z[i + x.len()] == e);
            }
        }
    }
    assert(b.dom() =~= a.dom().union(z.to_set()));
}

/// The stages of one step, in order, from `a` through the states `s` to `b`.
pub open spec fn step_chain(
    a: &Model,
    b: &Model,
    s: Seq<Model>,
    input: PlayerInput,
    dt: Time,
    now: Instant,
) -> bool {
    &&& s.len() == 15
    &&& time_advanced(a, &s[0], dt as int)
    &&& generate_level_post(&s[0], &s[1], dt)
    &&& player_control_post(&s[1], &s[2], input, dt, now)
    &&& gravity_post(&s[2], &s[3], dt)
    &&& movement_post(&s[3], &s[4], dt)
    &&& attached_triggers_post(&s[4], &s[5])
    &&& collide_clouds_post(&s[5], &s[6], dt, now)
    &&& collide_birds_post(&s[6], &s[7])
    &&& collide_triggers_post(&s[7], &s[8])
    &&& camera_control_post(&s[8], &s[9], dt)
    &&& lifetime_post(&s[9], &s[10], dt)
    &&& despawn_below_post(&s[10], &s[11])
    &&& update_particles_post(&s[11], &s[12], dt)
    &&& bursts_post(&s[12], &s[13], a.effects@.len() as int)
    &&& check_fall_post(&s[13], &s[14])
    &&& s[14] == *b
}

/// `b` is one step of `a` with the given input and length, at clock time `now`.
pub open spec fn stepped(a: &Model, input: PlayerInput, dt: Time, now: Instant, b: &Model) -> bool {
    exists|s: Seq<Model>| #[trigger] step_chain(a, b, s, input, dt, now)
}

impl Model {
    /// Adds the particles of the well-formed bursts among the effects from
    /// index `from` on.
    pub fn spawn_bursts(&mut self, from: usize)
        requires
            old(self).wf(),
        ensures
            final(self).wf(),
            bursts_post(old(self), final(self), from as int),
    {
        let w = self.world_width;
        let mut k = from;
        let ghost mut ids: Seq<Id> = Seq::empty();
        assert(self.particles@.dom() =~= old(self).particles@.dom().union(ids.to_set()));
        while k < self.effects.len()
            invariant
                self.wf(),
                w == self.world_width,
                from <= k,
                k <= self.effects@.len() || k == from,
                bursts_frame(old(self), self, from as int),
                added_exactly(old(self).particles@, self.particles@, ids),
                bursts_min(old(self).effects@, from as int, k as int, w) <= ids.len(),
                ids.len() <= bursts_max(old(self).effects@, from as int, k as int, w),
            decreases self.effects@.len() - k,
        {
            let e = self.effects[k];
            let ghost before = *self;
            let ghost mut added: Seq<Id> = Seq::empty();
            assert(self.particles@.dom() =~= before.particles@.dom().union(added.to_set()));
            if let Effect::Particles(b) = e {
                if check_burst(&b, w) {
                    let n = self.spawn_particles(b.intensity, b.position, b.velocity, b.color);
                    proof {
                        added = choose|y: Seq<Id>|
                            #[trigger] added_exactly(before.particles@, self.particles@, y) && y.len() == n;
                    }
                    assert forall|id: Id| #[trigger]
                        self.particles@.contains_key(id) && !old(self).particles@.contains_key(id)
                            implies exists|j: int|
                            #![trigger old(self).effects@[j]]
                            from <= j < old(self).effects@.len() && (old(
                                self,
                            ).effects@[j] matches Effect::Particles(bu) && of_burst(
                                self.particles@[id],
                                bu.position,
                                bu.velocity,
                                bu.color,
                            )) by {
                        if before.particles@.contains_key(id) {
                            let j = choose|j: int|
                                #![trigger old(self).effects@[j]]
                                from <= j < old(self).effects@.len() && (old(
                                    self,
                                ).effects@[j] matches Effect::Particles(bu) && of_burst(
                                    before.particles@[id],
                                    bu.position,
                                    bu.velocity,
                                    bu.color,
                                ));
                            assert(self.particles@[id] == before.particles@[id]);
                        } else {
                            assert(old(self).effects@[k as int] == e);
                        }
                    }
                }
            }
            proof {
                lemma_added_concat(old(self).particles@, before.particles@, self.particles@, ids, added);
                ids = ids + added;
                assert(old(self).effects@[k as int] == e);
            }
            k += 1;
        }
    }

    /// One step of the simulation, `delta_time` long, at clock time
    /// `now`: generation, the player's input, gravity, movement, attachment,
    /// the collision passes, the camera, lifetimes, despawning, particles,
    /// the bursts of this step, and the check for a fall out of view.
    #[verifier::rlimit(100)]
    pub fn step(&mut self, input: PlayerInput, delta_time: Time, now: Instant)
        requires
            old(self).wf(),
            valid_delta(delta_time as int),
            input.cursor.wf(),
            input.cursor.world_width == old(self).world_width,
        ensures
            final(self).wf(),
            stepped(old(self), input, delta_time, now, final(self)),
    {
        let first = self.effects.len();
        self.time = if self.time > LIMIT - delta_time {
            LIMIT
        } else {
            self.time + delta_time
        };
        let ghost s0 = *self;
        self.generate_level(delta_time);
        let ghost s1 = *self;
        self.player_control(input, delta_time, now);
        let ghost s2 = *self;
        self.gravity(delta_time);
        let ghost s3 = *self;
        self.movement(delta_time);
        let ghost s4 = *self;
        self.attached_triggers(delta_time);
        let ghost s5 = *self;
        self.collide_clouds(delta_time, now);
        let ghost s6 = *self;
        self.collide_birds(delta_time);
        let ghost s7 = *self;
        self.collide_triggers(delta_time);
        let ghost s8 = *self;
        self.camera_control(delta_time);
        let ghost s9 = *self;
        self.lifetime(delta_time);
        let ghost s10 = *self;
        self.despawn_below();
        let ghost s11 = *self;
        self.update_particles(delta_time);
        let ghost s12 = *self;
        self.spawn_bursts(first);
        let ghost s13 = *self;
        self.check_fall();
        proof {
            let s = seq![s0, s1, s2, s3, s4, s5, s6, s7, s8, s9, s10, s11, s12, s13, *self];
            assert(s[0] == s0 && s[1] == s1 && s[2] == s2 && s[3] == s3 && s[4] == s4);
            assert(s[5] == s5 && s[6] == s6 && s[7] == s7 && s[8] == s8 && s[9] == s9);
            assert(s[10] == s10 && s[11] == s11 && s[12] == s12 && s[13] == s13);
            assert(step_chain(old(self), self, s, input, delta_time, now));
        }
    }

    /// One step of the simulation at the time the model's clock reads.
    pub fn update(&mut self, input: PlayerInput, delta_time: Time)
        requires
            old(self).wf(),
            valid_delta(delta_time as int),
            input.cursor.wf(),
            input.cursor.world_width == old(self).world_width,
        ensures
            final(self).wf(),
            exists|now: Instant| stepped(old(self), input, delta_time, now, final(self)),
    {
        let now = self.clock.now();
        self.step(input, delta_time, now);
    }
}

} // verus!
