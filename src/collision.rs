use vstd::prelude::*;
use crate::arena::{sorted_by_index, Arena, Id};
use crate::collider::Collider;
use crate::components::{Bird, Body, Cloud, Color, Instant, Projectile, Time, Trigger, TriggerKind};
use crate::geometry::{bounded, clamp_abs_spec, div_trunc, Vec2, LIMIT, SECOND, UNIT};
use crate::model::{Burst, Effect, Model, Sound};
use crate::movement::valid_delta;
use crate::position::Position;

verus! {

/// How fast a landing may push a cloud down.
pub const CLOUD_SHIFT_SPEED: i64 = 5_000_000;

/// How long the player counts as grounded after leaving a cloud, in microseconds.
pub const COYOTE_TIME: u64 = 200_000;

/// Intensity of the burst when the player lands, in thousandths of a particle.
pub const LANDING_BURST: i64 = 5_000;

/// Downward speed of the landing burst.
pub const LANDING_DRIFT: i64 = 100_000;

pub open spec fn landing_color() -> Color {
    Color { r: 0x57, g: 0x72, b: 0xb5, a: 255 }
}

pub open spec fn body_with(b: Body, position: Position, velocity: Vec2) -> Body {
    Body { collider: Collider { position, ..b.collider }, velocity, mass: b.mass }
}

/// A landing of `body` on top of `cloud`, if they touch while the body moves
/// down relative to the cloud and the contact normal does not point down:
/// the cloud is pushed down by at most `CLOUD_SHIFT_SPEED * dt`, and the
/// vertical relative velocity is shared out by mass. Gives the new bodies and
/// the contact point.
pub open spec fn landing(body: Body, cloud: Body, dt: int) -> Option<(Body, Body, Position)> {
    match body.collider.collide_spec(cloud.collider) {
        None => None,
        Some(c) => {
            let rel = body.velocity.minus(cloud.velocity);
            if rel.y > 0 || c.normal.y < 0 {
                None
            } else {
                let m = body.mass + cloud.mass;
                let push = clamp_abs_spec(
                    -div_trunc(c.normal.y * c.penetration, UNIT as int),
                    div_trunc(CLOUD_SHIFT_SPEED * dt, SECOND as int),
                );
                let cloud_pos = cloud.collider.position.moved_spec(Vec2 { x: 0, y: push as i64 });
                let body_vel = body.velocity.minus(
                    Vec2 { x: 0, y: div_trunc(rel.y * cloud.mass, m) as i64 },
                );
                let cloud_vel = cloud.velocity.plus(
                    Vec2 { x: 0, y: div_trunc(rel.y * body.mass, m) as i64 },
                );
                Some(
                    (
                        body_with(body, body.collider.position, body_vel),
                        body_with(cloud, cloud_pos, cloud_vel),
                        c.point,
                    ),
                )
            }
        },
    }
}

/// Where the cloud pass stands after some clouds.
pub struct CloudPass {
    pub body: Body,
    pub grounded: Option<Id>,
    pub coyote_timer: Instant,
    pub clouds: Map<Id, Cloud>,
    pub effects: Seq<Effect>,
}

/// The effects of landing at `point` when not grounded before.
pub open spec fn landing_effects(point: Position) -> Seq<Effect> {
    seq![
        Effect::Sound(Sound::Landing),
        Effect::Particles(
            Burst {
                intensity: LANDING_BURST,
                position: point,
                velocity: Vec2 { x: 0, y: (-LANDING_DRIFT) as i64 },
                color: landing_color(),
            },
        ),
    ]
}

/// One cloud of the pass.
pub open spec fn cloud_step(s: CloudPass, id: Id, dt: int, now: Instant) -> CloudPass {
    if !s.clouds.contains_key(id) {
        s
    } else {
        match landing(s.body, s.clouds[id].body, dt) {
            None => s,
            Some((b, cb, point)) => CloudPass {
                body: b,
                grounded: Some(id),
                coyote_timer: now,
                clouds: s.clouds.insert(id, Cloud { body: cb, ..s.clouds[id] }),
                effects: if s.grounded is None {
                    s.effects + landing_effects(point)
                } else {
                    s.effects
                },
            },
        }
    }
}

/// The clouds of `ids`, in order.
pub open spec fn cloud_fold(s: CloudPass, ids: Seq<Id>, dt: int, now: Instant) -> CloudPass
    decreases ids.len(),
{
    if ids.len() == 0 {
        s
    } else {
        cloud_step(cloud_fold(s, ids.drop_last(), dt, now), ids.last(), dt, now)
    }
}

/// `order` lists the keys of `m` by slot index.
pub open spec fn in_slot_order<V>(order: Seq<Id>, m: Map<Id, V>) -> bool {
    &&& order.no_duplicates()
    &&& forall|id: Id| order.contains(id) <==> m.contains_key(id)
    &&& sorted_by_index(order)
}

fn land(body: &Body, cloud: &Body, dt: Time, w: i64) -> (r: Option<(Body, Body, Position)>)
    requires
        body.wf_in(w),
        cloud.wf_in(w),
        valid_delta(dt as int),
    ensures
        r == landing(*body, *cloud, dt as int),
        r matches Some((b, c, p)) ==> b.wf_in(w) && c.wf_in(w),
{
    let c = match body.collider.collide(&cloud.collider) {
        Some(c) => c,
        None => {
            return None;
        },
    };
    let rel = body.velocity.sub(cloud.velocity);
    // Collide only when moving down onto the top
    if rel.y > 0 || c.normal.y < 0 {
        return None;
    }
    let m = body.mass + cloud.mass;
    proof {
        crate::geometry::lemma_product_fits(c.normal.y, c.penetration);
        crate::geometry::lemma_product_fits(rel.y, cloud.mass);
        crate::geometry::lemma_product_fits(rel.y, body.mass);
    }
    let depth = crate::geometry::div_toward_zero(
        c.normal.y as i128 * c.penetration as i128,
        UNIT as i128,
    );
    let reach = CLOUD_SHIFT_SPEED * dt / SECOND;
    let push = crate::geometry::clamp_i128(-depth, -reach, reach);
    let mut new_cloud = *cloud;
    new_cloud.collider.position.move_by(Vec2 { x: 0, y: push });
    let tb = crate::geometry::div_toward_zero(rel.y as i128 * cloud.mass as i128, m as i128);
    let tc = crate::geometry::div_toward_zero(rel.y as i128 * body.mass as i128, m as i128);
    proof {
        crate::geometry::lemma_fraction_bound(rel.y as int, cloud.mass as int, m as int);
        crate::geometry::lemma_fraction_bound(rel.y as int, body.mass as int, m as int);
    }
    new_cloud.velocity = cloud.velocity.add(Vec2 { x: 0, y: tc as i64 });
    let mut new_body = *body;
    new_body.velocity = body.velocity.sub(Vec2 { x: 0, y: tb as i64 });
    Some((new_body, new_cloud, c.point))
}

impl Model {
    /// The state that the cloud pass reads and writes, as it stands in this model.
    pub open spec fn cloud_pass_of(&self) -> CloudPass {
        CloudPass {
            body: self.doodle().body,
            grounded: self.doodle().grounded,
            coyote_timer: self.doodle().coyote_timer,
            clouds: self.clouds@,
            effects: self.effects@,
        }
    }

    /// The state the cloud pass starts from: grounding has expired when the
    /// last landing is more than `COYOTE_TIME` ago.
    pub open spec fn cloud_pass_start(&self, now: Instant) -> CloudPass {
        CloudPass {
            grounded: if self.doodle().coyote_timer.elapsed_spec(now) > COYOTE_TIME {
                None
            } else {
                self.doodle().grounded
            },
            ..self.cloud_pass_of()
        }
    }

    /// Lands the player on the clouds it falls onto, clouds in slot order.
    pub fn collide_clouds(&mut self, delta_time: Time, now: Instant)
        requires
            old(self).wf(),
            valid_delta(delta_time as int),
        ensures
            final(self).wf(),
            collide_clouds_post(old(self), final(self), delta_time, now),
    {
        let w = self.world_width;
        let pid = self.player.body;
        assert(self.doodles@.contains_key(pid));
        match self.doodles.get_mut(pid) {
            Some(d) => {
                if d.coyote_timer.elapsed(now) > COYOTE_TIME {
                    d.grounded = None;
                }
            },
            None => {},
        }
        assert(self.doodles@.dom() =~= old(self).doodles@.dom());
        let ghost start = self.cloud_pass_of();
        assert(start == old(self).cloud_pass_start(now));
        let ids = self.clouds.ids();
        let mut i: usize = 0;
        while i < ids.len()
            invariant
                self.wf(),
                self.same_scalars(old(self)),
                self.doodles@.dom() == old(self).doodles@.dom(),
                self.doodle().active_triggers@ == old(self).doodle().active_triggers@,
                self.doodle().shoot_timer == old(self).doodle().shoot_timer,
                self.birds@ == old(self).birds@,
                self.projectiles@ == old(self).projectiles@,
                self.triggers@ == old(self).triggers@,
                self.particles@ == old(self).particles@,
                self.clouds@.dom() == old(self).clouds@.dom(),
                w == self.world_width,
                pid == self.player.body,
                valid_delta(delta_time as int),
                i <= ids@.len(),
                self.cloud_pass_of() == cloud_fold(start, ids@.take(i as int), delta_time as int, now),
            decreases ids@.len() - i,
        {
            let cid = ids[i];
            let ghost before = self.cloud_pass_of();
            assert(ids@.take(i + 1).drop_last() == ids@.take(i as int));
            assert(self.doodles@.contains_key(pid));
            let player = match self.doodles.get(pid) {
                Some(d) => Some((d.body, d.grounded)),
                None => None,
            };
            let cloud_body = match self.clouds.get(cid) {
                Some(c) => Some(c.body),
                None => None,
            };
            if let (Some((body, grounded)), Some(cb)) = (player, cloud_body) {
                match land(&body, &cb, delta_time, w) {
                    Some((nb, ncb, point)) => {
                        if grounded.is_none() {
                            self.effects.push(Effect::Sound(Sound::Landing));
                            self.effects.push(
                                Effect::Particles(
                                    Burst {
                                        intensity: LANDING_BURST,
                                        position: point,
                                        velocity: Vec2 { x: 0, y: -LANDING_DRIFT },
                                        color: Color::rgb(0x57, 0x72, 0xb5),
                                    },
                                ),
                            );
                        }
                        match self.doodles.get_mut(pid) {
                            Some(d) => {
                                d.body = nb;
                                d.grounded = Some(cid);
                                d.coyote_timer = now;
                            },
                            None => {},
                        }
                        match self.clouds.get_mut(cid) {
                            Some(c) => {
                                c.body = ncb;
                            },
                            None => {},
                        }
                        assert(self.doodles@.dom() =~= old(self).doodles@.dom());
                        assert(self.clouds@.dom() =~= old(self).clouds@.dom());
                        assert(self.effects@ =~= cloud_step(before, cid, delta_time as int, now).effects);
                        assert(self.cloud_pass_of().clouds =~= cloud_step(before, cid, delta_time as int, now).clouds);
                    },
                    None => {},
                }
            }
            i += 1;
        }
        assert(ids@.take(ids@.len() as int) == ids@);
    }
}

/// A landing leaves the body moving down (or not at all) relative to the cloud.
pub proof fn landing_stops_fall(body: Body, cloud: Body, dt: int)
    requires
        body.velocity.wf(),
        cloud.velocity.wf(),
        0 < body.mass,
        0 < cloud.mass,
        landing(body, cloud, dt) is Some,
    ensures
        landing(body, cloud, dt) matches Some((b, c, p)) && b.velocity.y <= c.velocity.y,
{
    let rel = body.velocity.minus(cloud.velocity);
    let r = rel.y as int;
    let m = body.mass + cloud.mass;
    crate::geometry::lemma_fraction_bound(r, cloud.mass as int, m);
    crate::geometry::lemma_fraction_bound(r, body.mass as int, m);
    let tb = div_trunc(r * cloud.mass, m);
    let tc = div_trunc(r * body.mass, m);
    assert(tb + tc >= r) by (nonlinear_arith)
        requires
            tb * m >= r * cloud.mass,
            tc * m >= r * body.mass,
            m == body.mass + cloud.mass,
            m > 0,
    ;
}

/// Each cloud of `ids` that the body does not land on leaves the pass as it was.
pub proof fn lemma_fold_without_contact(s: CloudPass, ids: Seq<Id>, dt: int, now: Instant)
    requires
        forall|id: Id|
            #![trigger s.clouds[id]]
            s.clouds.contains_key(id) ==> landing(s.body, s.clouds[id].body, dt) is None,
    ensures
        cloud_fold(s, ids, dt, now) == s,
    decreases ids.len(),
{
    if ids.len() > 0 {
        lemma_fold_without_contact(s, ids.drop_last(), dt, now);
    }
}

/// The only slot order of a single id is that id alone.
pub proof fn lemma_single_order<V>(order: Seq<Id>, m: Map<Id, V>, id: Id)
    requires
        in_slot_order(order, m),
        m.dom() == set![id],
    ensures
        order == seq![id],
{
    assert(m.contains_key(id));
    assert(order.contains(id));
    if order.len() >= 2 {
        assert(order.contains(order[0]));
        assert(order.contains(order[1]));
        assert(m.contains_key(order[0]));
        assert(m.contains_key(order[1]));
        assert(order[0] == id);
        assert(order[1] == id);
    }
    assert(order[0] == id) by {
        assert(order.contains(order[0]));
        assert(m.contains_key(order[0]));
    }
    assert(order =~= seq![id]);
}

/// A player falling onto the only cloud from above (they touch, the contact
/// normal does not point down, and the player moves down relative to the
/// cloud) is grounded on it after the pass, and no longer moves up relative
/// to the cloud.
pub proof fn falling_player_lands(m: Model, order: Seq<Id>, cloud: Id, dt: int, now: Instant)
    requires
        m.wf(),
        m.clouds@.dom() == set![cloud],
        in_slot_order(order, m.clouds@),
        m.doodle().body.collider.collide_spec(m.clouds@[cloud].body.collider) matches Some(c)
            && c.normal.y >= 0,
        m.doodle().body.velocity.minus(m.clouds@[cloud].body.velocity).y <= 0,
    ensures
        ({
            let after = cloud_fold(m.cloud_pass_start(now), order, dt, now);
            &&& after.grounded == Some(cloud)
            &&& after.body.velocity.y <= after.clouds[cloud].body.velocity.y
        }),
{
    lemma_single_order(order, m.clouds@, cloud);
    let s = m.cloud_pass_start(now);
    assert(m.doodles@.contains_key(m.player.body));
    assert(m.clouds@.contains_key(cloud));
    assert(order.drop_last() =~= Seq::<Id>::empty());
    assert(cloud_fold(s, order.drop_last(), dt, now) == s);
    landing_stops_fall(s.body, s.clouds[cloud].body, dt);
}

/// Passing over `a` and then `b` is passing over `a + b`.
pub proof fn lemma_fold_append(s: CloudPass, a: Seq<Id>, b: Seq<Id>, dt: int, now: Instant)
    ensures
        cloud_fold(s, a + b, dt, now) == cloud_fold(cloud_fold(s, a, dt, now), b, dt, now),
    decreases b.len(),
{
    if b.len() == 0 {
        assert(a + b =~= a);
    } else {
        assert((a + b).drop_last() =~= a + b.drop_last());
        assert((a + b).last() == b.last());
        lemma_fold_append(s, a, b.drop_last(), dt, now);
    }
}

/// Clouds of `ids` that the body does not land on leave the pass as it was.
pub proof fn lemma_fold_untouched(s: CloudPass, ids: Seq<Id>, dt: int, now: Instant)
    requires
        forall|i: int|
            #![trigger ids[i]]
            0 <= i < ids.len() ==> !s.clouds.contains_key(ids[i]) || landing(
                s.body,
                s.clouds[ids[i]].body,
                dt,
            ) is None,
    ensures
        cloud_fold(s, ids, dt, now) == s,
    decreases ids.len(),
{
    if ids.len() > 0 {
        let pre = ids.drop_last();
        assert forall|i: int| #![trigger pre[i]] 0 <= i < pre.len() implies !s.clouds.contains_key(
            pre[i],
        ) || landing(s.body, s.clouds[pre[i]].body, dt) is None by {
            assert(pre[i] == ids[i]);
        }
        lemma_fold_untouched(s, pre, dt, now);
        assert(ids[ids.len() - 1] == ids.last());
    }
}

/// Velocities within the limit and positive masses, for the player and every cloud.
pub open spec fn pass_valid(s: CloudPass) -> bool {
    &&& s.body.velocity.wf()
    &&& 0 < s.body.mass
    &&& forall|id: Id| #[trigger]
        s.clouds.contains_key(id) ==> s.clouds[id].body.velocity.wf() && 0 < s.clouds[id].body.mass
}

pub proof fn lemma_fold_valid(s: CloudPass, ids: Seq<Id>, dt: int, now: Instant)
    requires
        pass_valid(s),
    ensures
        pass_valid(cloud_fold(s, ids, dt, now)),
    decreases ids.len(),
{
    if ids.len() > 0 {
        lemma_fold_valid(s, ids.drop_last(), dt, now);
    }
}

/// Whatever the other clouds: when the player lands on cloud `c` and on no
/// cloud after it in the pass, it ends the pass grounded on `c`, not moving
/// up relative to it.
pub proof fn player_grounded_on_last_landing(
    s: CloudPass,
    pre: Seq<Id>,
    c: Id,
    post: Seq<Id>,
    dt: int,
    now: Instant,
)
    requires
        pass_valid(s),
        cloud_fold(s, pre, dt, now).clouds.contains_key(c),
        landing(
            cloud_fold(s, pre, dt, now).body,
            cloud_fold(s, pre, dt, now).clouds[c].body,
            dt,
        ) is Some,
        forall|i: int|
            #![trigger post[i]]
            0 <= i < post.len() ==> {
                let q = cloud_step(cloud_fold(s, pre, dt, now), c, dt, now);
                !q.clouds.contains_key(post[i]) || landing(q.body, q.clouds[post[i]].body, dt)
                    is None
            },
    ensures
        ({
            let r = cloud_fold(s, pre.push(c) + post, dt, now);
            &&& r.grounded == Some(c)
            &&& r.body.velocity.y <= r.clouds[c].body.velocity.y
        }),
{
    let p = cloud_fold(s, pre, dt, now);
    lemma_fold_valid(s, pre, dt, now);
    assert(pre.push(c).drop_last() =~= pre);
    let q = cloud_fold(s, pre.push(c), dt, now);
    assert(q == cloud_step(p, c, dt, now));
    lemma_fold_append(s, pre.push(c), post, dt, now);
    lemma_fold_untouched(q, post, dt, now);
    landing_stops_fall(p.body, p.clouds[c].body, dt);
}

/// Without a new landing, the player stays grounded for `COYOTE_TIME` after
/// the last one, and is no longer grounded after that.
pub proof fn coyote_time(m: Model, order: Seq<Id>, dt: int, now: Instant)
    requires
        m.wf(),
        in_slot_order(order, m.clouds@),
        forall|id: Id|
            #![trigger m.clouds@[id]]
            m.clouds@.contains_key(id) ==> landing(m.doodle().body, m.clouds@[id].body, dt) is None,
    ensures
        cloud_fold(m.cloud_pass_start(now), order, dt, now).grounded == if m.doodle().coyote_timer.elapsed_spec(
            now,
        ) > COYOTE_TIME {
            None
        } else {
            m.doodle().grounded
        },
{
    let s = m.cloud_pass_start(now);
    assert forall|id: Id| #![trigger s.clouds[id]] s.clouds.contains_key(id) implies landing(
        s.body,
        s.clouds[id].body,
        dt,
    ) is None by {
        assert(m.clouds@[id] == s.clouds[id]);
    }
    lemma_fold_without_contact(s, order, dt, now);
}

/// Points lost when a bird hits the player.
pub const BIRD_PENALTY: i64 = 50;

/// Points for shooting a bird down.
pub const KILL_BONUS: i64 = 100;

pub const HIT_BURST: i64 = 5_000;

pub const KILL_BURST: i64 = 3_000;

pub open spec fn hit_color() -> Color {
    Color { r: 0xb1, g: 0x6b, b: 0x7e, a: 255 }
}

pub open spec fn kill_color() -> Color {
    Color { r: 0x4b, g: 0x07, b: 0x1a, a: 255 }
}

/// The player's body after a bird knocks into it: pushed by the bird's
/// momentum, then its downward speed, if any, halved.
pub open spec fn knocked(body: Body, bird: Body) -> Body {
    let v1 = body.velocity.plus(bird.velocity.times(bird.mass as int, body.mass as int));
    let v2 = if v1.y < 0 {
        v1.minus(Vec2 { x: 0, y: div_trunc(v1.y as int, 2) as i64 })
    } else {
        v1
    };
    Body { velocity: v2, ..body }
}

pub open spec fn bird_hits(bird: Bird, p: Projectile) -> bool {
    bird.body.collider.collide_spec(p.body.collider) is Some
}

/// `p` is the projectile of lowest slot index that hits the bird.
pub open spec fn is_first_hit(bird: Bird, projectiles: Map<Id, Projectile>, p: Id) -> bool {
    &&& projectiles.contains_key(p)
    &&& bird_hits(bird, projectiles[p])
    &&& forall|q: Id|
        #![trigger projectiles[q]]
        projectiles.contains_key(q) && bird_hits(bird, projectiles[q]) ==> p.index <= q.index
}

/// The first projectile, in slot order, that hits the bird.
pub open spec fn first_hit(bird: Bird, projectiles: Map<Id, Projectile>) -> Option<Id> {
    if exists|p: Id| is_first_hit(bird, projectiles, p) {
        Some(choose|p: Id| is_first_hit(bird, projectiles, p))
    } else {
        None
    }
}

/// Where the bird pass stands after some birds.
pub struct BirdPass {
    pub body: Body,
    pub birds: Map<Id, Bird>,
    pub projectiles: Map<Id, Projectile>,
    pub score: int,
    pub effects: Seq<Effect>,
}

/// One bird of the pass: it hits the player, or else it is shot down by the
/// first projectile that touches it, or else nothing happens.
pub open spec fn bird_step(s: BirdPass, id: Id) -> BirdPass {
    if !s.birds.contains_key(id) {
        s
    } else {
        let bird = s.birds[id];
        if s.body.collider.collide_spec(bird.body.collider) is Some {
            BirdPass {
                body: knocked(s.body, bird.body),
                birds: s.birds.remove(id),
                score: bounded(s.score - BIRD_PENALTY),
                effects: s.effects + seq![
                    Effect::Sound(Sound::Hit),
                    Effect::Particles(
                        Burst {
                            intensity: HIT_BURST,
                            position: s.body.collider.position,
                            velocity: bird.body.velocity.times(3, 10),
                            color: hit_color(),
                        },
                    ),
                ],
                ..s
            }
        } else {
            match first_hit(bird, s.projectiles) {
                Some(p) => BirdPass {
                    birds: s.birds.remove(id),
                    projectiles: s.projectiles.remove(p),
                    score: bounded(s.score + KILL_BONUS),
                    effects: s.effects + seq![
                        Effect::Sound(Sound::KillBird),
                        Effect::Particles(
                            Burst {
                                intensity: KILL_BURST,
                                position: bird.body.collider.position,
                                velocity: s.projectiles[p].body.velocity.times(3, 10),
                                color: kill_color(),
                            },
                        ),
                    ],
                    ..s
                },
                None => s,
            }
        }
    }
}

/// The birds of `ids`, in order.
pub open spec fn bird_fold(s: BirdPass, ids: Seq<Id>) -> BirdPass
    decreases ids.len(),
{
    if ids.len() == 0 {
        s
    } else {
        bird_step(bird_fold(s, ids.drop_last()), ids.last())
    }
}

fn find_first_hit(bird: &Bird, projectiles: &Arena<Projectile>, w: i64) -> (r: Option<Id>)
    requires
        bird.wf_in(w),
        forall|id: Id| #[trigger]
            projectiles@.contains_key(id) ==> projectiles@[id].wf_in(w),
    ensures
        r == first_hit(*bird, projectiles@),
{
    let pids = projectiles.ids();
    let mut j: usize = 0;
    while j < pids.len()
        invariant
            j <= pids@.len(),
            pids@.no_duplicates(),
            forall|id: Id| pids@.contains(id) <==> projectiles@.contains_key(id),
            sorted_by_index(pids@),
            bird.wf_in(w),
            forall|id: Id| #[trigger]
                projectiles@.contains_key(id) ==> projectiles@[id].wf_in(w),
            forall|k: int|
                0 <= k < j ==> !bird_hits(*bird, #[trigger] projectiles@[pids@[k]]),
        decreases pids@.len() - j,
    {
        let pid = pids[j];
        assert(pids@.contains(pid));
        match projectiles.get(pid) {
            Some(p) => {
                if bird.body.collider.collide(&p.body.collider).is_some() {
                    proof {
                        assert forall|q: Id|
                            #![trigger projectiles@[q]]
                            projectiles@.contains_key(q) && bird_hits(
                                *bird,
                                projectiles@[q],
                            ) implies pid.index <= q.index by {
                            assert(pids@.contains(q));
                            let k = choose|k: int| 0 <= k < pids@.len() && pids@[k] == q;
                            if k < j {
                                assert(!bird_hits(*bird, projectiles@[pids@[k]]));
                            }
                        }
                        assert(is_first_hit(*bird, projectiles@, pid));
                        let c = choose|p: Id| is_first_hit(*bird, projectiles@, p);
                        assert(is_first_hit(*bird, projectiles@, c));
                        projectiles.lemma_index_unique(c, pid);
                    }
                    return Some(pid);
                }
            },
            None => {},
        }
        j += 1;
    }
    proof {
        assert forall|p: Id| !is_first_hit(*bird, projectiles@, p) by {
            if projectiles@.contains_key(p) {
                assert(pids@.contains(p));
                let k = choose|k: int| 0 <= k < pids@.len() && pids@[k] == p;
                assert(!bird_hits(*bird, projectiles@[pids@[k]]));
            }
        }
    }
    None
}

impl Model {
    /// The state that the bird pass reads and writes, as it stands in this model.
    pub open spec fn bird_pass_of(&self) -> BirdPass {
        BirdPass {
            body: self.doodle().body,
            birds: self.birds@,
            projectiles: self.projectiles@,
            score: self.score as int,
            effects: self.effects@,
        }
    }

    /// Lets each bird, in slot order, hit the player or be shot down.
    #[verifier::rlimit(100)]
    pub fn collide_birds(&mut self, delta_time: Time)
        requires
            old(self).wf(),
        ensures
            final(self).wf(),
            collide_birds_post(old(self), final(self)),
    {
        let w = self.world_width;
        let pid = self.player.body;
        let ghost start = self.bird_pass_of();
        let ids = self.birds.ids();
        let mut i: usize = 0;
        while i < ids.len()
            invariant
                self.wf(),
                self.time == old(self).time,
                self.world_width == old(self).world_width,
                self.generated_height == old(self).generated_height,
                self.next_bird == old(self).next_bird,
                self.camera == old(self).camera,
                self.player == old(self).player,
                self.session_end == old(self).session_end,
                self.doodles@.dom() == old(self).doodles@.dom(),
                self.doodle().grounded == old(self).doodle().grounded,
                self.doodle().active_triggers@ == old(self).doodle().active_triggers@,
                self.doodle().coyote_timer == old(self).doodle().coyote_timer,
                self.doodle().shoot_timer == old(self).doodle().shoot_timer,
                self.clouds@ == old(self).clouds@,
                self.triggers@ == old(self).triggers@,
                self.particles@ == old(self).particles@,
                w == self.world_width,
                pid == self.player.body,
                i <= ids@.len(),
                start == old(self).bird_pass_of(),
                in_slot_order(ids@, old(self).birds@),
                self.bird_pass_of() == bird_fold(start, ids@.take(i as int)),
            decreases ids@.len() - i,
        {
            let bid = ids[i];
            let ghost before = self.bird_pass_of();
            assert(ids@.take(i + 1).drop_last() == ids@.take(i as int));
            assert(self.doodles@.contains_key(pid));
            let player = match self.doodles.get(pid) {
                Some(d) => Some(d.body),
                None => None,
            };
            let bird = match self.birds.get(bid) {
                Some(b) => Some(*b),
                None => None,
            };
            if let (Some(body), Some(bird)) = (player, bird) {
                if body.collider.collide(&bird.body.collider).is_some() {
                    let push = bird.body.velocity.scale(bird.body.mass, body.mass);
                    let v1 = body.velocity.add(push);
                    let v2 = if v1.y < 0 {
                        v1.sub(Vec2 { x: 0, y: v1.y / 2 })
                    } else {
                        v1
                    };
                    match self.doodles.get_mut(pid) {
                        Some(d) => {
                            d.body.velocity = v2;
                        },
                        None => {},
                    }
                    self.birds.remove(bid);
                    self.score = crate::geometry::clamp_i128(
                        self.score as i128 - BIRD_PENALTY as i128,
                        -LIMIT,
                        LIMIT,
                    );
                    self.effects.push(Effect::Sound(Sound::Hit));
                    self.effects.push(
                        Effect::Particles(
                            Burst {
                                intensity: HIT_BURST,
                                position: body.collider.position,
                                velocity: bird.body.velocity.scale(3, 10),
                                color: Color::rgb(0xb1, 0x6b, 0x7e),
                            },
                        ),
                    );
                    assert(self.doodles@.dom() =~= old(self).doodles@.dom());
                    assert(self.effects@ =~= bird_step(before, bid).effects);
                    assert(self.bird_pass_of().birds =~= bird_step(before, bid).birds);
                } else {
                    match find_first_hit(&bird, &self.projectiles, w) {
                        Some(hit) => {
                            let proj_vel = match self.projectiles.get(hit) {
                                Some(p) => p.body.velocity,
                                None => Vec2::zero(),
                            };
                            self.projectiles.remove(hit);
                            self.birds.remove(bid);
                            self.score = crate::geometry::clamp_i128(
                                self.score as i128 + KILL_BONUS as i128,
                                -LIMIT,
                                LIMIT,
                            );
                            self.effects.push(Effect::Sound(Sound::KillBird));
                            self.effects.push(
                                Effect::Particles(
                                    Burst {
                                        intensity: KILL_BURST,
                                        position: bird.body.collider.position,
                                        velocity: proj_vel.scale(3, 10),
                                        color: Color::rgb(0x4b, 0x07, 0x1a),
                                    },
                                ),
                            );
                            assert(self.effects@ =~= bird_step(before, bid).effects);
                            assert(self.bird_pass_of().birds =~= bird_step(before, bid).birds);
                            assert(self.bird_pass_of().projectiles =~= bird_step(
                                before,
                                bid,
                            ).projectiles);
                        },
                        None => {},
                    }
                }
            }
            i += 1;
        }
        assert(ids@.take(ids@.len() as int) == ids@);
    }
}

/// Upward kick of a spring.
pub const SPRING_JUMP: i64 = 10_000_000;

/// Upward speed that a spring guarantees.
pub const MIN_JUMP_SPEED: i64 = 15_000_000;

/// The share (three tenths) of the spring's kick that pushes its cloud back, before the mass ratio.
pub const SPRING_RECOIL: i64 = 3_000_000;

/// Points for a coin.
pub const COIN_BONUS: i64 = 100;

pub const TRIGGER_BURST: i64 = 5_000;

/// Downward speed of the burst of a spring.
pub const SPRING_DRIFT: i64 = 200_000;

pub open spec fn spring_color() -> Color {
    Color { r: 0x21, g: 0x48, b: 0xab, a: 255 }
}

pub open spec fn coin_color() -> Color {
    Color { r: 0xe6, g: 0xac, b: 0x4c, a: 255 }
}

/// A velocity after a spring: kicked up by `SPRING_JUMP`, then raised to at
/// least `MIN_JUMP_SPEED` upward (a larger upward speed is kept).
pub open spec fn spring_boost(v: Vec2) -> Vec2 {
    let v1 = v.plus(Vec2 { x: 0, y: SPRING_JUMP });
    let lift = if MIN_JUMP_SPEED - v1.y > 0 {
        MIN_JUMP_SPEED - v1.y
    } else {
        0
    };
    v1.plus(Vec2 { x: 0, y: lift as i64 })
}

/// Where the trigger pass stands after some triggers. `previous` holds the
/// triggers the player overlapped in the last step, `active` those it
/// overlaps in this one so far.
pub struct TriggerPass {
    pub body: Body,
    pub triggers: Map<Id, Trigger>,
    pub clouds: Map<Id, Cloud>,
    pub score: int,
    pub effects: Seq<Effect>,
    pub previous: Seq<Id>,
    pub active: Seq<Id>,
}

/// The clouds after a spring attached to `t` kicks the player of mass `mass`.
pub open spec fn recoiled(clouds: Map<Id, Cloud>, t: Trigger, mass: int) -> Map<Id, Cloud> {
    match t.attached_to {
        Some(a) => if clouds.contains_key(a.cloud) {
            let c = clouds[a.cloud];
            let kick = Vec2 { x: 0, y: SPRING_RECOIL }.times(mass, c.body.mass as int);
            clouds.insert(
                a.cloud,
                Cloud { body: Body { velocity: c.body.velocity.minus(kick), ..c.body }, ..c },
            )
        } else {
            clouds
        },
        None => clouds,
    }
}

/// What a trigger the player has just entered does.
pub open spec fn trigger_fires(s: TriggerPass, id: Id) -> TriggerPass {
    let t = s.triggers[id];
    match t.kind {
        TriggerKind::Spring => TriggerPass {
            body: Body { velocity: spring_boost(s.body.velocity), ..s.body },
            clouds: recoiled(s.clouds, t, s.body.mass as int),
            effects: s.effects + seq![
                Effect::Sound(Sound::Spring),
                Effect::Particles(
                    Burst {
                        intensity: TRIGGER_BURST,
                        position: t.collider.position,
                        velocity: Vec2 { x: 0, y: (-SPRING_DRIFT) as i64 },
                        color: spring_color(),
                    },
                ),
            ],
            ..s
        },
        TriggerKind::Coin => TriggerPass {
            triggers: s.triggers.remove(id),
            score: bounded(s.score + COIN_BONUS),
            effects: s.effects + seq![
                Effect::Sound(Sound::Coin),
                Effect::Particles(
                    Burst {
                        intensity: TRIGGER_BURST,
                        position: t.collider.position,
                        velocity: Vec2 { x: 0, y: 0 },
                        color: coin_color(),
                    },
                ),
            ],
            ..s
        },
    }
}

/// One trigger of the pass: an overlapping trigger is recorded as active, and
/// fires only if it was not active in the last step.
pub open spec fn trigger_step(s: TriggerPass, id: Id) -> TriggerPass {
    if !s.triggers.contains_key(id) || s.body.collider.collide_spec(
        s.triggers[id].collider,
    ) is None {
        s
    } else {
        let s1 = TriggerPass { active: s.active.push(id), ..s };
        if s.previous.contains(id) {
            s1
        } else {
            trigger_fires(s1, id)
        }
    }
}

/// The triggers of `ids`, in order.
pub open spec fn trigger_fold(s: TriggerPass, ids: Seq<Id>) -> TriggerPass
    decreases ids.len(),
{
    if ids.len() == 0 {
        s
    } else {
        trigger_step(trigger_fold(s, ids.drop_last()), ids.last())
    }
}

fn contains_id(v: &Vec<Id>, id: Id) -> (r: bool)
    ensures
        r == v@.contains(id),
{
    let mut k: usize = 0;
    while k < v.len()
        invariant
            k <= v@.len(),
            forall|j: int| 0 <= j < k ==> v@[j] != id,
        decreases v@.len() - k,
    {
        if v[k] == id {
            return true;
        }
        k += 1;
    }
    false
}

impl Model {
    /// The state that the trigger pass reads and writes, as it stands in this
    /// model, with the triggers found active so far.
    pub open spec fn trigger_pass_of(&self, previous: Seq<Id>, active: Seq<Id>) -> TriggerPass {
        TriggerPass {
            body: self.doodle().body,
            triggers: self.triggers@,
            clouds: self.clouds@,
            score: self.score as int,
            effects: self.effects@,
            previous,
            active,
        }
    }

    fn fire_trigger(
        &mut self,
        tid: Id,
        t: Trigger,
        body: Body,
        previous: Ghost<Seq<Id>>,
        active: Ghost<Seq<Id>>,
    )
        requires
            old(self).wf(),
            old(self).triggers@.contains_key(tid),
            old(self).triggers@[tid] == t,
            old(self).doodle().body == body,
        ensures
            final(self).wf(),
            final(self).time == old(self).time,
            final(self).world_width == old(self).world_width,
            final(self).generated_height == old(self).generated_height,
            final(self).next_bird == old(self).next_bird,
            final(self).camera == old(self).camera,
            final(self).player == old(self).player,
            final(self).session_end == old(self).session_end,
            final(self).doodles@.dom() == old(self).doodles@.dom(),
            final(self).doodle().grounded == old(self).doodle().grounded,
            final(self).doodle().coyote_timer == old(self).doodle().coyote_timer,
            final(self).doodle().shoot_timer == old(self).doodle().shoot_timer,
            final(self).doodle().active_triggers@ == old(self).doodle().active_triggers@,
            final(self).birds@ == old(self).birds@,
            final(self).projectiles@ == old(self).projectiles@,
            final(self).particles@ == old(self).particles@,
            final(self).trigger_pass_of(previous@, active@) == trigger_fires(
                old(self).trigger_pass_of(previous@, active@),
                tid,
            ),
    {
        let pid = self.player.body;
        assert(self.doodles@.contains_key(pid));
        match t.kind {
            TriggerKind::Spring => {
                let v1 = body.velocity.add(Vec2 { x: 0, y: SPRING_JUMP });
                let lift = if MIN_JUMP_SPEED - v1.y > 0 {
                    MIN_JUMP_SPEED - v1.y
                } else {
                    0
                };
                let v2 = v1.add(Vec2 { x: 0, y: lift });
                match self.doodles.get_mut(pid) {
                    Some(d) => {
                        d.body.velocity = v2;
                    },
                    None => {},
                }
                if let Some(a) = t.attached_to {
                    match self.clouds.get_mut(a.cloud) {
                        Some(c) => {
                            let kick = Vec2 { x: 0, y: SPRING_RECOIL }.scale(
                                body.mass,
                                c.body.mass,
                            );
                            c.body.velocity = c.body.velocity.sub(kick);
                        },
                        None => {},
                    }
                }
                self.effects.push(Effect::Sound(Sound::Spring));
                self.effects.push(
                    Effect::Particles(
                        Burst {
                            intensity: TRIGGER_BURST,
                            position: t.collider.position,
                            velocity: Vec2 { x: 0, y: -SPRING_DRIFT },
                            color: Color::rgb(0x21, 0x48, 0xab),
                        },
                    ),
                );
            },
            TriggerKind::Coin => {
                self.triggers.remove(tid);
                self.score = crate::geometry::clamp_i128(
                    self.score as i128 + COIN_BONUS as i128,
                    -LIMIT,
                    LIMIT,
                );
                self.effects.push(Effect::Sound(Sound::Coin));
                self.effects.push(
                    Effect::Particles(
                        Burst {
                            intensity: TRIGGER_BURST,
                            position: t.collider.position,
                            velocity: Vec2::zero(),
                            color: Color::rgb(0xe6, 0xac, 0x4c),
                        },
                    ),
                );
            },
        }
        assert(self.doodles@.dom() =~= old(self).doodles@.dom());
        assert(self.effects@ =~= trigger_fires(old(self).trigger_pass_of(previous@, active@), tid).effects);
        assert(self.triggers@ =~= trigger_fires(old(self).trigger_pass_of(previous@, active@), tid).triggers);
        assert(self.clouds@ =~= trigger_fires(old(self).trigger_pass_of(previous@, active@), tid).clouds);
    }

    /// Fires the springs and coins the player has just entered, triggers in
    /// slot order, and remembers the ones it overlaps for the next step.
    pub fn collide_triggers(&mut self, delta_time: Time)
        requires
            old(self).wf(),
        ensures
            final(self).wf(),
            collide_triggers_post(old(self), final(self)),
    {
        let w = self.world_width;
        let pid = self.player.body;
        assert(self.doodles@.contains_key(pid));
        let ghost previous = self.doodle().active_triggers@;
        let ghost start = self.trigger_pass_of(previous, seq![]);
        let mut active: Vec<Id> = Vec::new();
        let ids = self.triggers.ids();
        let mut i: usize = 0;
        while i < ids.len()
            invariant
                self.wf(),
                self.time == old(self).time,
                self.world_width == old(self).world_width,
                self.generated_height == old(self).generated_height,
                self.next_bird == old(self).next_bird,
                self.camera == old(self).camera,
                self.player == old(self).player,
                self.session_end == old(self).session_end,
                self.doodles@.dom() == old(self).doodles@.dom(),
                self.doodle().grounded == old(self).doodle().grounded,
                self.doodle().coyote_timer == old(self).doodle().coyote_timer,
                self.doodle().shoot_timer == old(self).doodle().shoot_timer,
                self.doodle().active_triggers@ == previous,
                self.birds@ == old(self).birds@,
                self.projectiles@ == old(self).projectiles@,
                self.particles@ == old(self).particles@,
                w == self.world_width,
                pid == self.player.body,
                i <= ids@.len(),
                previous == old(self).doodle().active_triggers@,
                start == old(self).trigger_pass_of(previous, seq![]),
                in_slot_order(ids@, old(self).triggers@),
                self.trigger_pass_of(previous, active@) == trigger_fold(start, ids@.take(i as int)),
            decreases ids@.len() - i,
        {
            let tid = ids[i];
            let ghost before = self.trigger_pass_of(previous, active@);
            assert(ids@.take(i + 1).drop_last() == ids@.take(i as int));
            assert(self.doodles@.contains_key(pid));
            let player = match self.doodles.get(pid) {
                Some(d) => Some((d.body, contains_id(&d.active_triggers, tid))),
                None => None,
            };
            let trigger = match self.triggers.get(tid) {
                Some(t) => Some(*t),
                None => None,
            };
            if let (Some((body, was_active)), Some(t)) = (player, trigger) {
                if body.collider.collide(&t.collider).is_some() {
                    active.push(tid);
                    if !was_active {
                        self.fire_trigger(tid, t, body, Ghost(previous), Ghost(active@));
                    }
                    assert(self.doodles@.dom() =~= old(self).doodles@.dom());
                    assert(self.effects@ =~= trigger_step(before, tid).effects);
                    assert(self.triggers@ =~= trigger_step(before, tid).triggers);
                    assert(self.clouds@ =~= trigger_step(before, tid).clouds);
                }
            }
            i += 1;
        }
        assert(ids@.take(ids@.len() as int) == ids@);
        match self.doodles.get_mut(pid) {
            Some(d) => {
                d.active_triggers = active;
            },
            None => {},
        }
        assert(self.doodles@.dom() =~= old(self).doodles@.dom());
    }
}

/// A spring fires on the step the player enters it and not while the player
/// stays inside: overlapping it always records it as active, and if it was
/// already active in the last step nothing else happens.
pub proof fn spring_fires_on_entry_only(s: TriggerPass, id: Id)
    requires
        s.triggers.contains_key(id),
        s.triggers[id].kind == TriggerKind::Spring,
        s.body.collider.collide_spec(s.triggers[id].collider) is Some,
    ensures
        trigger_step(s, id).active == s.active.push(id),
        s.previous.contains(id) ==> trigger_step(s, id) == (TriggerPass {
            active: s.active.push(id),
            ..s
        }),
        !s.previous.contains(id) ==> trigger_step(s, id).body.velocity == spring_boost(
            s.body.velocity,
        ),
{
}

/// A step of another trigger keeps the player's collider, keeps `id` as it
/// was, and keeps what was recorded active.
pub proof fn lemma_fold_keeps(s: TriggerPass, ids: Seq<Id>, id: Id)
    requires
        !ids.contains(id),
    ensures
        trigger_fold(s, ids).body.collider == s.body.collider,
        trigger_fold(s, ids).triggers.contains_key(id) == s.triggers.contains_key(id),
        s.triggers.contains_key(id) ==> trigger_fold(s, ids).triggers[id] == s.triggers[id],
        forall|x: Id| s.active.contains(x) ==> trigger_fold(s, ids).active.contains(x),
        trigger_fold(s, ids).previous == s.previous,
    decreases ids.len(),
{
    if ids.len() > 0 {
        assert(!ids.drop_last().contains(id)) by {
            if ids.drop_last().contains(id) {
                let k = choose|k: int| 0 <= k < ids.drop_last().len() && ids.drop_last()[k] == id;
                assert(ids[k] == id);
            }
        }
        lemma_fold_keeps(s, ids.drop_last(), id);
        let p = trigger_fold(s, ids.drop_last());
        assert(ids.last() != id) by {
            assert(ids[ids.len() - 1] == ids.last());
        }
        assert forall|x: Id| p.active.contains(x) implies trigger_step(
            p,
            ids.last(),
        ).active.contains(x) by {
            if trigger_step(p, ids.last()).active != p.active {
                let k = choose|k: int| 0 <= k < p.active.len() && p.active[k] == x;
                assert(trigger_step(p, ids.last()).active[k] == x);
            }
        }
    }
}

/// After a pass over triggers that include `id`, a trigger `id` that overlaps
/// the player is among the active ones, so it will not fire in the next step.
pub proof fn overlap_is_remembered(s: TriggerPass, ids: Seq<Id>, id: Id)
    requires
        ids.no_duplicates(),
        ids.contains(id),
        s.triggers.contains_key(id),
        s.body.collider.collide_spec(s.triggers[id].collider) is Some,
    ensures
        trigger_fold(s, ids).active.contains(id),
    decreases ids.len(),
{
    let pre = ids.drop_last();
    if ids.last() == id {
        assert(!pre.contains(id)) by {
            if pre.contains(id) {
                let k = choose|k: int| 0 <= k < pre.len() && pre[k] == id;
                assert(ids[k] == id);
                assert(ids[ids.len() - 1] == id);
            }
        }
        lemma_fold_keeps(s, pre, id);
        let p = trigger_fold(s, pre);
        assert(trigger_step(p, id).active == p.active.push(id));
        assert(trigger_step(p, id).active[p.active.len() as int] == id);
    } else {
        assert(pre.contains(id)) by {
            let k = choose|k: int| 0 <= k < ids.len() && ids[k] == id;
            assert(k != ids.len() - 1);
            assert(pre[k] == id);
        }
        assert(pre.no_duplicates());
        overlap_is_remembered(s, pre, id);
        let p = trigger_fold(s, pre);
        let x = ids.last();
        if trigger_step(p, x).active != p.active {
            let k = choose|k: int| 0 <= k < p.active.len() && p.active[k] == id;
            assert(trigger_step(p, x).active[k] == id);
        }
    }
}

/// A trigger the player does not overlap (and that was not already recorded)
/// is not among the active ones after the pass, so a spring the player has
/// left fires again when entered once more.
pub proof fn left_trigger_is_forgotten(s: TriggerPass, ids: Seq<Id>, t: Id)
    requires
        ids.no_duplicates(),
        !s.active.contains(t),
        s.triggers.contains_key(t) ==> s.body.collider.collide_spec(s.triggers[t].collider) is None,
    ensures
        !trigger_fold(s, ids).active.contains(t),
    decreases ids.len(),
{
    if ids.len() > 0 {
        let pre = ids.drop_last();
        let x = ids.last();
        assert(pre.no_duplicates());
        left_trigger_is_forgotten(s, pre, t);
        let p = trigger_fold(s, pre);
        if x == t {
            assert(!pre.contains(t)) by {
                if pre.contains(t) {
                    let k = choose|k: int| 0 <= k < pre.len() && pre[k] == t;
                    assert(ids[k] == t);
                    assert(ids[ids.len() - 1] == t);
                }
            }
            lemma_fold_keeps(s, pre, t);
            assert(trigger_step(p, t) == p);
        } else {
            let r = trigger_step(p, x);
            if r.active != p.active {
                assert(r.active == p.active.push(x));
                if r.active.contains(t) {
                    let k = choose|k: int| 0 <= k < r.active.len() && r.active[k] == t;
                    if k < p.active.len() {
                        assert(p.active[k] == t);
                    }
                }
            }
        }
    }
}

/// A coin the player enters is removed and gives `COIN_BONUS` points, once:
/// a later step of the same id finds nothing.
pub proof fn coin_collected_once(s: TriggerPass, id: Id)
    requires
        s.triggers.contains_key(id),
        s.triggers[id].kind == TriggerKind::Coin,
        s.body.collider.collide_spec(s.triggers[id].collider) is Some,
        !s.previous.contains(id),
    ensures
        !trigger_step(s, id).triggers.contains_key(id),
        trigger_step(s, id).score == bounded(s.score + COIN_BONUS),
        trigger_step(trigger_step(s, id), id) == trigger_step(s, id),
{
}

/// What `Model::collide_clouds` makes of `a`.
pub open spec fn collide_clouds_post(a: &Model, b: &Model, delta_time: Time, now: Instant) -> bool {
    &&& (b.same_scalars(a))
    &&& (b.doodles@.dom() == a.doodles@.dom())
    &&& (b.doodle().active_triggers@ == a.doodle().active_triggers@)
    &&& (b.doodle().shoot_timer == a.doodle().shoot_timer)
    &&& (b.birds@ == a.birds@)
    &&& (b.projectiles@ == a.projectiles@)
    &&& (b.triggers@ == a.triggers@)
    &&& (b.particles@ == a.particles@)
    &&& (exists|order: Seq<Id>|
            #![trigger cloud_fold(a.cloud_pass_start(now), order, delta_time as int, now)]
            in_slot_order(order, a.clouds@) && b.cloud_pass_of() == cloud_fold(
                a.cloud_pass_start(now),
                order,
                delta_time as int,
                now,
            ))
}

/// What `Model::collide_birds` makes of `a`.
pub open spec fn collide_birds_post(a: &Model, b: &Model) -> bool {
    &&& (b.time == a.time)
    &&& (b.world_width == a.world_width)
    &&& (b.generated_height == a.generated_height)
    &&& (b.next_bird == a.next_bird)
    &&& (b.camera == a.camera)
    &&& (b.player == a.player)
    &&& (b.session_end == a.session_end)
    &&& (b.doodles@.dom() == a.doodles@.dom())
    &&& (b.doodle().grounded == a.doodle().grounded)
    &&& (b.doodle().active_triggers@ == a.doodle().active_triggers@)
    &&& (b.doodle().coyote_timer == a.doodle().coyote_timer)
    &&& (b.doodle().shoot_timer == a.doodle().shoot_timer)
    &&& (b.clouds@ == a.clouds@)
    &&& (b.triggers@ == a.triggers@)
    &&& (b.particles@ == a.particles@)
    &&& (exists|order: Seq<Id>|
            #![trigger bird_fold(a.bird_pass_of(), order)]
            in_slot_order(order, a.birds@) && b.bird_pass_of() == bird_fold(
                a.bird_pass_of(),
                order,
            ))
}

/// What `Model::collide_triggers` makes of `a`.
pub open spec fn collide_triggers_post(a: &Model, b: &Model) -> bool {
    &&& (b.time == a.time)
    &&& (b.world_width == a.world_width)
    &&& (b.generated_height == a.generated_height)
    &&& (b.next_bird == a.next_bird)
    &&& (b.camera == a.camera)
    &&& (b.player == a.player)
    &&& (b.session_end == a.session_end)
    &&& (b.doodles@.dom() == a.doodles@.dom())
    &&& (b.doodle().grounded == a.doodle().grounded)
    &&& (b.doodle().coyote_timer == a.doodle().coyote_timer)
    &&& (b.doodle().shoot_timer == a.doodle().shoot_timer)
    &&& (b.birds@ == a.birds@)
    &&& (b.projectiles@ == a.projectiles@)
    &&& (b.particles@ == a.particles@)
    &&& (exists|order: Seq<Id>|
            #![trigger trigger_fold(a.trigger_pass_of(a.doodle().active_triggers@, seq![]), order)]
            in_slot_order(order, a.triggers@) && b.trigger_pass_of(
                a.doodle().active_triggers@,
                b.doodle().active_triggers@,
            ) == trigger_fold(
                a.trigger_pass_of(a.doodle().active_triggers@, seq![]),
                order,
            ))
}

} // verus!
