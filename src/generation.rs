use vstd::prelude::*;
use crate::arena::Id;
use crate::components::{
    bird_at, cloud_at, coin_on, spring_on, Bird, Cloud, Coord, Time, Trigger, MAX_DELTA,
};
use crate::geometry::{clamp_spec, Vec2, LIMIT, SECOND, UNIT};
use crate::model::Model;
use crate::movement::valid_delta;
use crate::position::{from_world_spec, PositionCylinder, HEIGHT_LIMIT};
use crate::random::{random_between, random_chance};

verus! {

/// How far above the player the world is generated.
pub const GEN_AHEAD: i64 = 20_000_000;

/// Birds only come once the player is above this height.
pub const BIRD_HEIGHT: i64 = 30_000_000;

pub const BIRD_INTERVAL_MIN: i64 = 700_000;

pub const BIRD_INTERVAL_MAX: i64 = 2_000_000;

pub const BIRD_SPEED_MIN: i64 = 4_000_000;

pub const BIRD_SPEED_MAX: i64 = 6_000_000;

pub const CLOUD_STEP_MIN: i64 = 500_000;

pub const CLOUD_STEP_MAX: i64 = 2_000_000;

pub const CLOUD_DRIFT_MIN: i64 = 2_000_000;

pub const CLOUD_DRIFT_MAX: i64 = 4_000_000;

/// Speed of the first bird.
pub const FIRST_BIRD_SPEED: i64 = 5_000_000;

/// Below how far under the camera's centre the player has fallen out of the game,
/// beyond half the visible height.
pub const FALL_MARGIN: i64 = 1_000_000;

/// What stands on a new cloud.
#[derive(Clone, Copy, Debug, PartialEq, Eq, Structural)]
pub enum CloudExtra {
    Nothing,
    Spring,
    Coin,
}

/// A cloud spawned at `x` and `height` (held at the world's top), drifting at `drift`.
pub open spec fn spawned_cloud(x: Coord, height: int, drift: Coord, w: Coord) -> Cloud {
    Cloud {
        anchor_velocity: Vec2 { x: drift, y: 0 },
        ..cloud_at(
            from_world_spec(
                Vec2 { x, y: clamp_spec(height, -HEIGHT_LIMIT as int, HEIGHT_LIMIT as int) as i64 },
                w as int,
            ),
        )
    }
}

/// The triggers after `extra` is put on cloud `cloud` under id `t`.
pub open spec fn with_extra(
    triggers: Map<Id, Trigger>,
    extra: CloudExtra,
    t: Id,
    cloud: Id,
    w: Coord,
) -> Map<Id, Trigger> {
    match extra {
        CloudExtra::Nothing => triggers,
        CloudExtra::Spring => triggers.insert(t, spring_on(cloud, w)),
        CloudExtra::Coin => triggers.insert(t, coin_on(Some(cloud), w)),
    }
}

/// The random values behind one generated cloud.
#[derive(Clone, Copy, Debug, PartialEq, Eq, Structural)]
pub struct CloudDraw {
    pub x: Coord,
    pub step: Coord,
    pub drift: Coord,
    pub extra: CloudExtra,
}

/// The random values behind one bird sent ahead of the player.
#[derive(Clone, Copy, Debug, PartialEq, Eq, Structural)]
pub struct BirdDraw {
    pub interval: Time,
    pub predict: Time,
    pub speed: Coord,
}

/// Values that generation may draw for a cloud in a world of width `w`.
pub open spec fn cloud_draw_ok(d: CloudDraw, w: int) -> bool {
    &&& 0 <= d.x <= w
    &&& CLOUD_STEP_MIN <= d.step <= CLOUD_STEP_MAX
    &&& (d.drift == 0 || CLOUD_DRIFT_MIN <= d.drift <= CLOUD_DRIFT_MAX || -CLOUD_DRIFT_MAX
        <= d.drift <= -CLOUD_DRIFT_MIN)
}

/// Values that generation may draw for a bird.
pub open spec fn bird_draw_ok(d: BirdDraw) -> bool {
    &&& BIRD_INTERVAL_MIN <= d.interval <= BIRD_INTERVAL_MAX
    &&& SECOND <= d.predict <= 2 * SECOND
    &&& (BIRD_SPEED_MIN <= d.speed <= BIRD_SPEED_MAX || -BIRD_SPEED_MAX <= d.speed
        <= -BIRD_SPEED_MIN)
}

/// Everything but the clouds, the triggers and the generated height is the same.
pub open spec fn same_but_level(a: &Model, b: &Model) -> bool {
    &&& b.time == a.time
    &&& b.score == a.score
    &&& b.world_width == a.world_width
    &&& b.next_bird == a.next_bird
    &&& b.camera == a.camera
    &&& b.player == a.player
    &&& b.session_end == a.session_end
    &&& b.doodles@ == a.doodles@
    &&& b.birds@ == a.birds@
    &&& b.projectiles@ == a.projectiles@
    &&& b.particles@ == a.particles@
    &&& b.effects@ == a.effects@
}

/// `b` is `a` with one cloud made from `d` above the generated height, which
/// it raises by `d.step`, and what `d.extra` puts on it.
pub open spec fn cloud_spawned(a: &Model, b: &Model, d: CloudDraw) -> bool {
    &&& same_but_level(a, b)
    &&& b.generated_height == a.generated_height + d.step
    &&& exists|id: Id, t: Id|
        {
            &&& !a.clouds@.contains_key(id)
            &&& b.clouds@ == a.clouds@.insert(
                id,
                spawned_cloud(d.x, a.generated_height + d.step, d.drift, a.world_width),
            )
            &&& b.triggers@ == with_extra(a.triggers@, d.extra, t, id, a.world_width)
            &&& (d.extra != CloudExtra::Nothing ==> !a.triggers@.contains_key(t))
        }
}

/// `b` is `a` with one bird sent toward where the player will be in `predict`.
pub open spec fn bird_spawned(a: &Model, b: &Model, predict: int, speed: Coord) -> bool {
    &&& b.time == a.time
    &&& b.score == a.score
    &&& b.world_width == a.world_width
    &&& b.generated_height == a.generated_height
    &&& b.next_bird == a.next_bird
    &&& b.camera == a.camera
    &&& b.player == a.player
    &&& b.session_end == a.session_end
    &&& b.doodles@ == a.doodles@
    &&& b.clouds@ == a.clouds@
    &&& b.projectiles@ == a.projectiles@
    &&& b.triggers@ == a.triggers@
    &&& b.particles@ == a.particles@
    &&& b.effects@ == a.effects@
    &&& exists|id: Id|
        #![trigger b.birds@[id]]
        !a.birds@.contains_key(id) && b.birds@ == a.birds@.insert(
            id,
            bird_at(
                a.doodle().body.collider.position.moved_spec(
                    Vec2 {
                        x: (a.world_width / 2) as i64,
                        y: Vec2 { x: 0, y: a.doodle().body.velocity.y }.times(
                            predict,
                            SECOND as int,
                        ).y,
                    },
                ),
                speed,
            ),
        )
}

/// The sum of the intervals of `draws`.
pub open spec fn intervals(draws: Seq<BirdDraw>) -> int
    decreases draws.len(),
{
    if draws.len() == 0 {
        0
    } else {
        intervals(draws.drop_last()) + draws.last().interval
    }
}

/// `states` runs from one state to the next by one bird per draw, each sent
/// while the countdown, started at `start`, is still below zero.
pub open spec fn bird_chain(states: Seq<Model>, draws: Seq<BirdDraw>, start: int) -> bool {
    &&& states.len() == draws.len() + 1
    &&& forall|i: int|
        #![trigger draws[i]]
        0 <= i < draws.len() ==> {
            &&& bird_draw_ok(draws[i])
            &&& start + intervals(draws.take(i)) < 0
            &&& bird_spawned(&states[i], &states[i + 1], draws[i].predict as int, draws[i].speed)
        }
}

/// `states` runs from one state to the next by one cloud per draw, each made
/// while the generated height is still below `top`.
pub open spec fn cloud_chain(states: Seq<Model>, draws: Seq<CloudDraw>, top: int) -> bool {
    &&& states.len() == draws.len() + 1
    &&& forall|i: int|
        #![trigger draws[i]]
        0 <= i < draws.len() ==> {
            &&& cloud_draw_ok(draws[i], states[i].world_width as int)
            &&& states[i].generated_height < top
            &&& cloud_spawned(&states[i], &states[i + 1], draws[i])
        }
}

/// One run of generation from `a` to `b`, through the seeded state `s`, the
/// birds of `birds` and the clouds of `clouds`.
pub open spec fn generation_run(
    a: &Model,
    b: &Model,
    dt: int,
    s: Model,
    bird_states: Seq<Model>,
    birds: Seq<BirdDraw>,
    cloud_states: Seq<Model>,
    clouds: Seq<CloudDraw>,
) -> bool {
    let py = a.doodle().body.collider.position.pos.y;
    &&& s.same_scalars(a)
    &&& if a.clouds@.is_empty() {
        exists|ids: (Id, Id, Id, Id, Id)| #[trigger] seeded_as(a, &s, ids)
    } else {
        s == *a
    }
    &&& bird_chain(bird_states, birds, s.next_bird - dt)
    &&& bird_states[0] == s
    &&& if py > BIRD_HEIGHT {
        s.next_bird - dt + intervals(birds) >= 0 && b.next_bird == s.next_bird - dt + intervals(birds)
    } else {
        birds.len() == 0 && b.next_bird == a.next_bird
    }
    &&& cloud_chain(cloud_states, clouds, py + GEN_AHEAD)
    &&& cloud_states[0] == bird_states.last()
    &&& cloud_states.last().generated_height >= py + GEN_AHEAD
    &&& same_but_timer(&cloud_states.last(), b)
}

/// Everything but the bird timer is the same.
pub open spec fn same_but_timer(a: &Model, b: &Model) -> bool {
    &&& b.time == a.time
    &&& b.score == a.score
    &&& b.world_width == a.world_width
    &&& b.generated_height == a.generated_height
    &&& b.camera == a.camera
    &&& b.player == a.player
    &&& b.session_end == a.session_end
    &&& b.doodles@ == a.doodles@
    &&& b.birds@ == a.birds@
    &&& b.clouds@ == a.clouds@
    &&& b.projectiles@ == a.projectiles@
    &&& b.triggers@ == a.triggers@
    &&& b.particles@ == a.particles@
    &&& b.effects@ == a.effects@
}

/// `b` is what generation can make of `a` in a step of `dt`: the seed on an
/// empty world, then birds while the bird timer runs out (above
/// `BIRD_HEIGHT`), then clouds up to `GEN_AHEAD` above the player, all from
/// values in their ranges.
pub open spec fn generated(a: &Model, b: &Model, dt: int) -> bool {
    exists|
        s: Model,
        bird_states: Seq<Model>,
        birds: Seq<BirdDraw>,
        cloud_states: Seq<Model>,
        clouds: Seq<CloudDraw>,
    |
        #[trigger] generation_run(a, b, dt, s, bird_states, birds, cloud_states, clouds)
}

/// `after` holds every entity of `before`, unchanged.
pub open spec fn keeps<V>(before: Map<Id, V>, after: Map<Id, V>) -> bool {
    forall|id: Id| #[trigger]
        before.contains_key(id) ==> after.contains_key(id) && after[id] == before[id]
}

/// `after` is `before` with the first clouds (ids `a`, `b`, `c`), a spring
/// (`t`) on the last of them and the first bird added.
pub open spec fn seeded_as(before: &Model, after: &Model, ids: (Id, Id, Id, Id, Id)) -> bool {
    let (a, b, c, t, bird) = ids;
            &&& after.clouds@ == before.clouds@.insert(
                a,
                cloud_at(from_world_spec(Vec2 { x: 0, y: (-3 * UNIT) as i64 }, before.world_width as int)),
            ).insert(
                b,
                cloud_at(from_world_spec(Vec2 { x: (-2 * UNIT) as i64, y: (-UNIT) as i64 }, before.world_width as int)),
            ).insert(
                c,
                cloud_at(from_world_spec(Vec2 { x: UNIT, y: (5 * UNIT / 2) as i64 }, before.world_width as int)),
            )
            &&& after.triggers@ == before.triggers@.insert(
                t,
                spring_on(c, before.world_width),
            )
            &&& after.birds@ == before.birds@.insert(
                bird,
                bird_at(
                    from_world_spec(Vec2 { x: (-3 * UNIT) as i64, y: (3 * UNIT) as i64 }, before.world_width as int),
                    FIRST_BIRD_SPEED,
                ),
            )
            &&& !before.clouds@.contains_key(a)
            &&& !before.clouds@.contains_key(b)
            &&& !before.clouds@.contains_key(c)
            &&& !before.triggers@.contains_key(t)
            &&& !before.birds@.contains_key(bird)
            &&& a != b && a != c && b != c
}

impl Model {
    /// The first clouds, a spring on the last of them, and the first bird.
    pub fn seed_level(&mut self)
        requires
            old(self).wf(),
        ensures
            final(self).wf(),
            final(self).same_scalars(old(self)),
            final(self).doodles@ == old(self).doodles@,
            final(self).projectiles@ == old(self).projectiles@,
            final(self).particles@ == old(self).particles@,
            final(self).effects@ == old(self).effects@,
            exists|ids: (Id, Id, Id, Id, Id)| #[trigger] seeded_as(old(self), final(self), ids),
    {
        let w = self.world_width;
        let a = self.clouds.insert(
            Cloud::new(PositionCylinder::from_world(Vec2::new(0, -3 * UNIT), w)),
        );
        let b = self.clouds.insert(
            Cloud::new(PositionCylinder::from_world(Vec2::new(-2 * UNIT, -UNIT), w)),
        );
        let c = self.clouds.insert(
            Cloud::new(PositionCylinder::from_world(Vec2::new(UNIT, 5 * UNIT / 2), w)),
        );
        let t = self.triggers.insert(Trigger::spring(c, w));
        let bird = self.birds.insert(
            Bird::new(
                PositionCylinder::from_world(Vec2::new(-3 * UNIT, 3 * UNIT), w),
                FIRST_BIRD_SPEED,
            ),
        );
        assert(a != b && a != c && b != c);
        assert(seeded_as(old(self), self, (a, b, c, t, bird)));
    }

    /// A new cloud at `x`, `step` above the generated height, which it
    /// becomes; it drifts at `drift` and carries what `extra` says.
    pub fn spawn_cloud(&mut self, x: Coord, step: Coord, drift: Coord, extra: CloudExtra)
        requires
            old(self).wf(),
            0 <= x <= old(self).world_width,
            0 < step <= CLOUD_STEP_MAX,
            -CLOUD_DRIFT_MAX <= drift <= CLOUD_DRIFT_MAX,
            old(self).generated_height < HEIGHT_LIMIT + GEN_AHEAD,
        ensures
            final(self).wf(),
            cloud_spawned(old(self), final(self), CloudDraw { x, step, drift, extra }),
    {
        let w = self.world_width;
        let y = self.generated_height + step;
        self.generated_height = y;
        let held = if y > HEIGHT_LIMIT {
            HEIGHT_LIMIT
        } else if y < -HEIGHT_LIMIT {
            -HEIGHT_LIMIT
        } else {
            y
        };
        let position = PositionCylinder::from_world(Vec2::new(x, held), w);
        let mut cloud = Cloud::new(position);
        cloud.anchor_velocity = Vec2::new(drift, 0);
        let id = self.clouds.insert(cloud);
        match extra {
            CloudExtra::Nothing => {
                assert(self.triggers@ == with_extra(old(self).triggers@, extra, id, id, w));
            },
            CloudExtra::Spring => {
                let t = self.triggers.insert(Trigger::spring(id, w));
                assert(self.triggers@ == with_extra(old(self).triggers@, extra, t, id, w));
            },
            CloudExtra::Coin => {
                let t = self.triggers.insert(Trigger::coin(Some(id), w));
                assert(self.triggers@ == with_extra(old(self).triggers@, extra, t, id, w));
            },
        }
    }

    /// A bird half the world away from the player, at the height the player
    /// will reach in `predict` at its current vertical speed, flying at `speed`.
    pub fn spawn_bird_ahead(&mut self, predict: Time, speed: Coord)
        requires
            old(self).wf(),
            0 <= predict <= 2 * SECOND,
            -BIRD_SPEED_MAX <= speed <= BIRD_SPEED_MAX,
        ensures
            final(self).wf(),
            bird_spawned(old(self), final(self), predict as int, speed),
    {
        let w = self.world_width;
        let pid = self.player.body;
        assert(self.doodles@.contains_key(pid));
        let (position, velocity) = match self.doodles.get(pid) {
            Some(d) => (d.body.collider.position, d.body.velocity),
            None => (self.camera.center, Vec2::zero()),
        };
        let height = Vec2::new(0, velocity.y).scale(predict, SECOND).y;
        let at = position.moved(Vec2::new(w / 2, height));
        let id = self.birds.insert(Bird::new(at, speed));
        assert(self.birds@[id] == bird_at(at, speed));
    }

    /// Seeds the world when it has no clouds, brings birds once the player is
    /// above `BIRD_HEIGHT`, and adds clouds until the world reaches
    /// `GEN_AHEAD` above the player. Where, how many and what kind come by chance.
    pub fn generate_level(&mut self, delta_time: Time)
        requires
            old(self).wf(),
            valid_delta(delta_time as int),
        ensures
            final(self).wf(),
            generate_level_post(old(self), final(self), delta_time),
    {
        let ghost a = *self;
        let w = self.world_width;
        let pid = self.player.body;
        assert(self.doodles@.contains_key(pid));
        let position = match self.doodles.get(pid) {
            Some(d) => d.body.collider.position,
            None => self.camera.center,
        };
        let player_y = position.pos.y;
        let ids = self.clouds.ids();
        if ids.len() == 0 {
            assert(self.clouds@ =~= Map::<Id, Cloud>::empty()) by {
                assert forall|id: Id| !self.clouds@.contains_key(id) by {
                    if self.clouds@.contains_key(id) {
                        assert(ids@.contains(id));
                    }
                }
            }
            self.seed_level();
        } else {
            assert(!old(self).clouds@.is_empty()) by {
                assert(ids@.contains(ids@[0]));
            }
        }
        let ghost seeded = *self;
        // Birds
        let start = self.next_bird - delta_time;
        let mut countdown = start;
        let ghost mut bird_states: Seq<Model> = seq![*self];
        let ghost mut birds: Seq<BirdDraw> = Seq::empty();
        if player_y > BIRD_HEIGHT {
            while countdown < 0
                invariant
                    self.wf(),
                    -LIMIT - MAX_DELTA <= countdown <= LIMIT,
                    countdown == start + intervals(birds),
                    start == seeded.next_bird - delta_time,
                    bird_chain(bird_states, birds, start as int),
                    bird_states[0] == seeded,
                    bird_states.last() == *self,
                    self.time == seeded.time,
                    self.score == seeded.score,
                    self.world_width == seeded.world_width,
                    self.camera == seeded.camera,
                    self.player == seeded.player,
                    self.session_end == seeded.session_end,
                    self.doodles@ == seeded.doodles@,
                    self.projectiles@ == seeded.projectiles@,
                    self.particles@ == seeded.particles@,
                    self.effects@ == seeded.effects@,
                decreases BIRD_INTERVAL_MAX - countdown,
            {
                let interval = random_between(BIRD_INTERVAL_MIN, BIRD_INTERVAL_MAX);
                let predict = random_between(SECOND, 2 * SECOND);
                let right = random_chance(1, 2);
                let speed = random_between(BIRD_SPEED_MIN, BIRD_SPEED_MAX);
                let speed = if right {
                    speed
                } else {
                    -speed
                };
                let ghost before = *self;
                self.spawn_bird_ahead(predict, speed);
                proof {
                    let d = BirdDraw { interval, predict, speed };
                    let ps = bird_states;
                    let pd = birds;
                    bird_states = bird_states.push(*self);
                    birds = birds.push(d);
                    assert(birds.drop_last() =~= pd);
                    assert forall|i: int| #![trigger birds[i]] 0 <= i < birds.len() implies {
                        &&& bird_draw_ok(birds[i])
                        &&& start + intervals(birds.take(i)) < 0
                        &&& bird_spawned(
                            &bird_states[i],
                            &bird_states[i + 1],
                            birds[i].predict as int,
                            birds[i].speed,
                        )
                    } by {
                        if i < pd.len() {
                            assert(birds[i] == pd[i]);
                            assert(birds.take(i) =~= pd.take(i));
                            assert(bird_states[i] == ps[i]);
                            assert(bird_states[i + 1] == ps[i + 1]);
                        } else {
                            assert(birds.take(i) =~= pd);
                            assert(bird_states[i] == before);
                        }
                    }
                }
                countdown = countdown + interval;
            }
        }
        let ghost birds_done = *self;
        // Clouds
        let ghost mut cloud_states: Seq<Model> = seq![*self];
        let ghost mut clouds: Seq<CloudDraw> = Seq::empty();
        while player_y + GEN_AHEAD > self.generated_height
            invariant
                self.wf(),
                player_y == old(self).doodle().body.collider.position.pos.y,
                w == self.world_width,
                -HEIGHT_LIMIT <= player_y <= HEIGHT_LIMIT,
                self.generated_height >= birds_done.generated_height,
                cloud_chain(cloud_states, clouds, player_y + GEN_AHEAD),
                cloud_states[0] == birds_done,
                cloud_states.last() == *self,
                self.time == birds_done.time,
                self.score == birds_done.score,
                self.world_width == birds_done.world_width,
                self.next_bird == birds_done.next_bird,
                self.camera == birds_done.camera,
                self.player == birds_done.player,
                self.session_end == birds_done.session_end,
                self.doodles@ == birds_done.doodles@,
                self.projectiles@ == birds_done.projectiles@,
                self.particles@ == birds_done.particles@,
                self.effects@ == birds_done.effects@,
            decreases player_y + GEN_AHEAD + CLOUD_STEP_MAX - self.generated_height,
        {
            let step = random_between(CLOUD_STEP_MIN, CLOUD_STEP_MAX);
            let x = random_between(0, w);
            let drift = if random_chance(3, 10) {
                // A moving cloud
                let speed = random_between(CLOUD_DRIFT_MIN, CLOUD_DRIFT_MAX);
                if random_chance(1, 2) {
                    speed
                } else {
                    -speed
                }
            } else {
                0
            };
            let extra = if random_chance(1, 10) {
                CloudExtra::Spring
            } else if random_chance(3, 4) {
                CloudExtra::Coin
            } else {
                CloudExtra::Nothing
            };
            let ghost before = *self;
            self.spawn_cloud(x, step, drift, extra);
            proof {
                let d = CloudDraw { x, step, drift, extra };
                let ps = cloud_states;
                let pd = clouds;
                cloud_states = cloud_states.push(*self);
                clouds = clouds.push(d);
                assert forall|i: int| #![trigger clouds[i]] 0 <= i < clouds.len() implies {
                    &&& cloud_draw_ok(clouds[i], cloud_states[i].world_width as int)
                    &&& cloud_states[i].generated_height < player_y + GEN_AHEAD
                    &&& cloud_spawned(&cloud_states[i], &cloud_states[i + 1], clouds[i])
                } by {
                    if i < pd.len() {
                        assert(clouds[i] == pd[i]);
                        assert(cloud_states[i] == ps[i]);
                        assert(cloud_states[i + 1] == ps[i + 1]);
                    } else {
                        assert(cloud_states[i] == before);
                    }
                }
            }
        }
        if player_y > BIRD_HEIGHT {
            self.next_bird = countdown;
        }
        proof {
            if a.clouds@.is_empty() {
                let ids = choose|ids: (Id, Id, Id, Id, Id)| seeded_as(&a, &seeded, ids);
                assert(seeded_as(&a, &seeded, ids));
            } else {
                assert(seeded == a);
            }
            assert(generation_run(&a, self, delta_time as int, seeded, bird_states, birds, cloud_states, clouds));
        }
    }

    /// Removes the clouds and triggers that have fallen below the camera's view,
    /// a whole visible height under its centre.
    pub fn despawn_below(&mut self)
        requires
            old(self).wf(),
        ensures
            final(self).wf(),
            despawn_below_post(old(self), final(self)),
    {
        let low = self.camera.center.pos.y - self.camera.fov;
        let w = self.world_width;
        let keep_cloud = |c: &Cloud| -> (r: Option<Cloud>)
            ensures
                r == (if c.body.collider.position.pos.y >= low {
                    Some(*c)
                } else {
                    None
                }),
        {
            if c.body.collider.position.pos.y >= low {
                Some(*c)
            } else {
                None
            }
        };
        self.clouds.update_retain(keep_cloud);
        assert(self.clouds@ =~= old(self).clouds@.filter_keys(
            |id: Id|
                old(self).clouds@[id].body.collider.position.pos.y >= old(self).camera.center.pos.y - old(self).camera.fov,
        ));
        let keep_trigger = |t: &Trigger| -> (r: Option<Trigger>)
            ensures
                r == (if t.collider.position.pos.y >= low {
                    Some(*t)
                } else {
                    None
                }),
        {
            if t.collider.position.pos.y >= low {
                Some(*t)
            } else {
                None
            }
        };
        self.triggers.update_retain(keep_trigger);
        assert(self.triggers@ =~= old(self).triggers@.filter_keys(
            |id: Id|
                old(self).triggers@[id].collider.position.pos.y >= old(self).camera.center.pos.y - old(self).camera.fov,
        ));
    }

    /// The player has fallen more than half the visible height plus
    /// `FALL_MARGIN` below the camera's centre.
    pub open spec fn fallen_out(&self) -> bool {
        self.doodle().body.collider.position.pos.y < self.camera.center.pos.y - self.camera.fov / 2
            - FALL_MARGIN
    }

    /// Ends the session, with the current score, once the player has fallen out of view.
    pub fn check_fall(&mut self)
        requires
            old(self).wf(),
        ensures
            final(self).wf(),
            check_fall_post(old(self), final(self)),
    {
        let pid = self.player.body;
        assert(self.doodles@.contains_key(pid));
        let y = match self.doodles.get(pid) {
            Some(d) => d.body.collider.position.pos.y,
            None => self.camera.center.pos.y,
        };
        if self.session_end.is_none() && y < self.camera.center.pos.y - self.camera.fov / 2
            - FALL_MARGIN {
            self.session_end = Some(self.current_score());
        }
    }
}

/// What `Model::generate_level` makes of `a`.
pub open spec fn generate_level_post(a: &Model, b: &Model, delta_time: Time) -> bool {
    &&& (generated(a, b, delta_time as int))
    &&& (b.time == a.time)
    &&& (b.score == a.score)
    &&& (b.world_width == a.world_width)
    &&& (b.camera == a.camera)
    &&& (b.player == a.player)
    &&& (b.session_end == a.session_end)
    &&& (b.doodles@ == a.doodles@)
    &&& (b.projectiles@ == a.projectiles@)
    &&& (b.particles@ == a.particles@)
    &&& (b.effects@ == a.effects@)
}

/// What `Model::despawn_below` makes of `a`.
pub open spec fn despawn_below_post(a: &Model, b: &Model) -> bool {
    &&& (b.same_scalars(a))
    &&& (b.doodles@ == a.doodles@)
    &&& (b.birds@ == a.birds@)
    &&& (b.projectiles@ == a.projectiles@)
    &&& (b.particles@ == a.particles@)
    &&& (b.effects@ == a.effects@)
    &&& (b.clouds@ == a.clouds@.filter_keys(
            |id: Id|
                a.clouds@[id].body.collider.position.pos.y >= a.camera.center.pos.y - a.camera.fov))
    &&& (b.triggers@ == a.triggers@.filter_keys(
            |id: Id|
                a.triggers@[id].collider.position.pos.y >= a.camera.center.pos.y - a.camera.fov))
}

/// What `Model::check_fall` makes of `a`.
pub open spec fn check_fall_post(a: &Model, b: &Model) -> bool {
    &&& (b.session_end == if a.fallen_out() && a.session_end is None {
            Some(a.current_score_spec() as i64)
    } else {
            a.session_end
    })
    &&& (b.time == a.time)
    &&& (b.score == a.score)
    &&& (b.world_width == a.world_width)
    &&& (b.generated_height == a.generated_height)
    &&& (b.next_bird == a.next_bird)
    &&& (b.camera == a.camera)
    &&& (b.player == a.player)
    &&& (b.doodles@ == a.doodles@)
    &&& (b.birds@ == a.birds@)
    &&& (b.clouds@ == a.clouds@)
    &&& (b.projectiles@ == a.projectiles@)
    &&& (b.triggers@ == a.triggers@)
    &&& (b.particles@ == a.particles@)
    &&& (b.effects@ == a.effects@)
}

} // verus!
