use vstd::prelude::*;
use crate::arena::Id;
use crate::collider::{Collider, Shape};
use crate::components::{
    Body, Color, Lifetime, Particle, Time, PARTICLE_LIFETIME, PARTICLE_RADIUS,
};
use crate::generation::keeps;
use crate::geometry::Vec2;
use crate::model::Model;
use crate::movement::{particle_aged, valid_delta};
use crate::position::Position;
use crate::random::{random_between, random_chance};

verus! {

/// How far from a burst's position its particles appear.
pub const PARTICLE_SPREAD: i64 = 200_000;

/// How many times a point of the disc is drawn before the centre is taken.
pub const DISC_TRIES: u32 = 32;

/// A fresh particle.
pub open spec fn particle_at(position: Position, velocity: Vec2, color: Color) -> Particle {
    Particle {
        body: Body {
            collider: Collider { position, rotation: 0, shape: Shape::Circle { radius: PARTICLE_RADIUS } },
            velocity,
            mass: 1,
        },
        color,
        lifetime: Lifetime { value: PARTICLE_LIFETIME, max: PARTICLE_LIFETIME },
    }
}

/// `p` is a fresh particle of the burst, within `PARTICLE_SPREAD` of its position.
pub open spec fn of_burst(p: Particle, position: Position, velocity: Vec2, color: Color) -> bool {
    exists|offset: Vec2|
        #![trigger position.moved_spec(offset)]
        offset.len_sq() <= PARTICLE_SPREAD * PARTICLE_SPREAD && p == particle_at(
            position.moved_spec(offset),
            velocity,
            color,
        )
}

/// `after` holds the entities of `before` and exactly the new ids `ids` besides.
pub open spec fn added_exactly<V>(before: Map<Id, V>, after: Map<Id, V>, ids: Seq<Id>) -> bool {
    &&& ids.no_duplicates()
    &&& forall|i: int| 0 <= i < ids.len() ==> !before.contains_key(#[trigger] ids[i])
    &&& after.dom() == before.dom().union(ids.to_set())
}

/// How many particles a burst of the given intensity (in thousandths) makes:
/// the intensity rounded up, or by chance none or one below one particle.
pub open spec fn burst_size(intensity: int) -> int {
    (intensity + 999) / 1000
}

/// A random point of the disc of radius `PARTICLE_SPREAD`: points of the
/// enclosing square are drawn until one falls in the disc, which makes it
/// uniform over the disc; after `DISC_TRIES` misses the centre is taken.
fn disc_offset() -> (r: Vec2)
    ensures
        r.len_sq() <= PARTICLE_SPREAD * PARTICLE_SPREAD,
        r.wf(),
{
    let mut tries: u32 = 0;
    while tries < DISC_TRIES
        decreases DISC_TRIES - tries,
    {
        let x = random_between(-PARTICLE_SPREAD, PARTICLE_SPREAD);
        let y = random_between(-PARTICLE_SPREAD, PARTICLE_SPREAD);
        assert(0 <= x * x <= PARTICLE_SPREAD * PARTICLE_SPREAD) by (nonlinear_arith)
            requires
                -PARTICLE_SPREAD <= x <= PARTICLE_SPREAD,
        ;
        assert(0 <= y * y <= PARTICLE_SPREAD * PARTICLE_SPREAD) by (nonlinear_arith)
            requires
                -PARTICLE_SPREAD <= y <= PARTICLE_SPREAD,
        ;
        if x * x + y * y <= PARTICLE_SPREAD * PARTICLE_SPREAD {
            return Vec2::new(x, y);
        }
        tries += 1;
    }
    Vec2::zero()
}

impl Model {
    /// Adds the particles of a burst around `position`; gives how many.
    pub fn spawn_particles(&mut self, intensity: i64, position: Position, velocity: Vec2, color: Color) -> (r: i64)
        requires
            old(self).wf(),
            position.wf(),
            position.world_width == old(self).world_width,
            velocity.wf(),
            0 <= intensity <= i64::MAX - 999,
        ensures
            final(self).wf(),
            final(self).same_scalars(old(self)),
            final(self).doodles@ == old(self).doodles@,
            final(self).birds@ == old(self).birds@,
            final(self).clouds@ == old(self).clouds@,
            final(self).projectiles@ == old(self).projectiles@,
            final(self).triggers@ == old(self).triggers@,
            final(self).effects@ == old(self).effects@,
            keeps(old(self).particles@, final(self).particles@),
            forall|id: Id| #[trigger]
                final(self).particles@.contains_key(id) && !old(self).particles@.contains_key(id)
                    ==> of_burst(final(self).particles@[id], position, velocity, color),
            exists|ids: Seq<Id>|
                #[trigger] added_exactly(old(self).particles@, final(self).particles@, ids)
                    && ids.len() == r,
            intensity >= 1000 ==> r == burst_size(intensity as int),
            intensity < 1000 ==> 0 <= r <= 1,
            intensity == 0 ==> r == 0,
    {
        let amount: i64 = if intensity < 1000 {
            if random_chance(intensity as u32, 1000) {
                1
            } else {
                0
            }
        } else {
            (intensity + 999) / 1000
        };
        let mut k: i64 = 0;
        let ghost mut ids: Seq<Id> = Seq::empty();
        assert(self.particles@.dom() =~= old(self).particles@.dom().union(ids.to_set()));
        while k < amount
            invariant
                0 <= k <= amount,
                self.wf(),
                self.same_scalars(old(self)),
                self.doodles@ == old(self).doodles@,
                self.birds@ == old(self).birds@,
                self.clouds@ == old(self).clouds@,
                self.projectiles@ == old(self).projectiles@,
                self.triggers@ == old(self).triggers@,
                self.effects@ == old(self).effects@,
                position.wf(),
                position.world_width == self.world_width,
                velocity.wf(),
                keeps(old(self).particles@, self.particles@),
                forall|id: Id| #[trigger]
                    self.particles@.contains_key(id) && !old(self).particles@.contains_key(id)
                        ==> of_burst(self.particles@[id], position, velocity, color),
                added_exactly(old(self).particles@, self.particles@, ids),
                ids.len() == k,
            decreases amount - k,
        {
            let offset = disc_offset();
            let at = position.moved(offset);
            let ghost before = self.particles@;
            let id = self.particles.insert(Particle::new(at, velocity, color));
            assert(of_burst(self.particles@[id], position, velocity, color));
            assert(keeps(before, self.particles@));
            proof {
                let prev = ids;
                ids = ids.push(id);
                assert(!prev.contains(id)) by {
                    if prev.contains(id) {
                        assert(before.contains_key(id));
                    }
                }
                assert forall|i: int| 0 <= i < ids.len() implies !old(self).particles@.contains_key(
                    #[trigger] ids[i],
                ) by {
                    if i < prev.len() {
                        assert(ids[i] == prev[i]);
                    } else {
                        assert(!before.contains_key(id));
                    }
                }
                assert(ids.no_duplicates()) by {
                    assert forall|a: int, b: int| 0 <= a < b < ids.len() implies ids[a] != ids[b] by {
                        if b == prev.len() {
                            assert(prev.contains(prev[a]));
                        } else {
                            assert(prev[a] != prev[b]);
                        }
                    }
                }
                assert(ids.to_set() =~= prev.to_set().insert(id)) by {
                    assert forall|x: Id| ids.to_set().contains(x) <==> prev.to_set().insert(id).contains(x) by {
                        if ids.contains(x) {
                            let j = choose|j: int| 0 <= j < ids.len() && ids[j] == x;
                            if j < prev.len() {
                                assert(prev[j] == x);
                            }
                        }
                        if prev.contains(x) {
                            let j = choose|j: int| 0 <= j < prev.len() && prev[j] == x;
                            assert(ids[j] == x);
                        }
                        if x == id {
                            assert(ids[prev.len() as int] == id);
                        }
                    }
                }
                assert(self.particles@.dom() =~= old(self).particles@.dom().union(ids.to_set()));
            }
            k += 1;
        }
        amount
    }

    /// Counts the particles' lifetimes down, removes those that run out and
    /// moves the others.
    pub fn update_particles(&mut self, delta_time: Time)
        requires
            old(self).wf(),
            valid_delta(delta_time as int),
        ensures
            final(self).wf(),
            update_particles_post(old(self), final(self), delta_time),
    {
        let w = self.world_width;
        let age = |p: &Particle| -> (r: Option<Particle>)
            requires
                p.wf_in(w),
            ensures
                r == particle_aged(*p, delta_time as int),
                r matches Some(n) ==> n.wf_in(w),
        {
            crate::movement::age_particle(p, delta_time, w)
        };
        self.particles.update_retain(age);
    }
}

/// What `Model::update_particles` makes of `a`.
pub open spec fn update_particles_post(a: &Model, b: &Model, delta_time: Time) -> bool {
    &&& (b.same_scalars(a))
    &&& (b.doodles@ == a.doodles@)
    &&& (b.birds@ == a.birds@)
    &&& (b.clouds@ == a.clouds@)
    &&& (b.projectiles@ == a.projectiles@)
    &&& (b.triggers@ == a.triggers@)
    &&& (b.effects@ == a.effects@)
    &&& (forall|id: Id|
            #![trigger b.particles@.contains_key(id)]
            #![trigger a.particles@.contains_key(id)]
            b.particles@.contains_key(id) <==> (a.particles@.contains_key(id)
                && particle_aged(a.particles@[id], delta_time as int) is Some))
    &&& (forall|id: Id| #[trigger]
            b.particles@.contains_key(id) ==> Some(b.particles@[id])
                == particle_aged(a.particles@[id], delta_time as int))
}

} // verus!
