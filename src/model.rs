use vstd::prelude::*;
use crate::arena::{Arena, Id};
use crate::collider::{Collider, Shape};
use crate::components::{
    Bird, Body, Clock, Cloud, Color, Coord, Doodle, Instant, Particle, Projectile, Time, Trigger,
};
use crate::geometry::{Vec2, LIMIT, UNIT};
use crate::position::{valid_width, Position, PositionCylinder, HEIGHT_LIMIT};

verus! {

/// The width of the world: 35 * 0.55 units.
pub const WORLD_WIDTH: i64 = 19_250_000;

/// Side of the player's square.
pub const DOODLE_SIZE: i64 = 1_000_000;

pub const DOODLE_MASS: i64 = 10;

/// Score points per unit of height that the camera has reached.
pub const HEIGHT_SCORE: i64 = 5;

/// Follows the player upward; never moves down.
#[derive(Clone, Copy, Debug, PartialEq, Eq, Structural)]
pub struct Camera {
    pub center: Position,
    /// The point the centre chases; it chases the player in turn.
    pub target_position: Position,
    /// The visible height.
    pub fov: Coord,
}

impl Camera {
    pub open spec fn wf_in(self, w: i64) -> bool {
        &&& self.center.wf()
        &&& self.center.world_width == w
        &&& self.target_position.wf()
        &&& self.target_position.world_width == w
        &&& 0 < self.fov <= HEIGHT_LIMIT
    }

    /// A camera at the origin.
    pub fn new(fov: Coord, world_width: Coord) -> (r: Camera)
        requires
            valid_width(world_width as int),
            0 < fov <= HEIGHT_LIMIT,
        ensures
            r.center == crate::position::origin(world_width),
            r.target_position == crate::position::origin(world_width),
            r.fov == fov,
            r.wf_in(world_width),
    {
        Camera {
            center: PositionCylinder::zero(world_width),
            target_position: PositionCylinder::zero(world_width),
            fov,
        }
    }
}

/// The entity that the player controls.
#[derive(Clone, Copy, Debug, PartialEq, Eq, Structural)]
pub struct Player {
    pub body: Id,
}

/// The player's input for one step.
#[derive(Clone, Copy, Debug, PartialEq, Eq, Structural)]
pub struct PlayerInput {
    /// Movement direction; each component is read within `[-UNIT, UNIT]`.
    pub input_dir: Vec2,
    pub jump: bool,
    pub shoot: bool,
    /// Where the cursor points, in the world.
    pub cursor: Position,
}

/// A sound for the audio layer to play.
#[derive(Clone, Copy, Debug, PartialEq, Eq, Structural)]
pub enum Sound {
    Jump,
    Spring,
    Hit,
    KillBird,
    Shoot,
    Coin,
    Landing,
}

/// A burst of particles: `intensity` is in thousandths of a particle.
#[derive(Clone, Copy, Debug, PartialEq, Eq, Structural)]
pub struct Burst {
    pub intensity: i64,
    pub position: Position,
    pub velocity: Vec2,
    pub color: Color,
}

/// A side effect of a step, for the audio and rendering layers to drain.
#[derive(Clone, Copy, Debug, PartialEq, Eq, Structural)]
pub enum Effect {
    Sound(Sound),
    Particles(Burst),
}

/// The whole simulation.
pub struct Model {
    /// Simulation time, in microseconds.
    pub time: Time,
    /// Points from events; `current_score` adds the height reached.
    pub score: i64,
    pub world_width: Coord,
    /// The height up to which the world has been generated so far.
    pub generated_height: Coord,
    /// The time until the next bird spawns.
    pub next_bird: Time,
    pub camera: Camera,
    pub player: Player,
    pub doodles: Arena<Doodle>,
    pub birds: Arena<Bird>,
    pub clouds: Arena<Cloud>,
    pub projectiles: Arena<Projectile>,
    pub triggers: Arena<Trigger>,
    pub particles: Arena<Particle>,
    /// Sounds and particle bursts emitted and not yet drained.
    pub effects: Vec<Effect>,
    /// Set to the final score once the player has fallen out of view.
    pub session_end: Option<i64>,
    /// The clock that `update` reads the time from.
    pub clock: Clock,
}

impl Model {
    pub open spec fn wf(&self) -> bool {
        let w = self.world_width;
        &&& valid_width(w as int)
        &&& self.camera.wf_in(w)
        &&& self.doodles@.dom() == set![self.player.body]
        &&& forall|id: Id| #[trigger]
            self.doodles@.contains_key(id) ==> self.doodles@[id].wf_in(w)
        &&& forall|id: Id| #[trigger] self.birds@.contains_key(id) ==> self.birds@[id].wf_in(w)
        &&& forall|id: Id| #[trigger] self.clouds@.contains_key(id) ==> self.clouds@[id].wf_in(w)
        &&& forall|id: Id| #[trigger]
            self.projectiles@.contains_key(id) ==> self.projectiles@[id].wf_in(w)
        &&& forall|id: Id| #[trigger]
            self.triggers@.contains_key(id) ==> self.triggers@[id].wf_in(w)
        &&& forall|id: Id| #[trigger]
            self.particles@.contains_key(id) ==> self.particles@[id].wf_in(w)
        &&& -LIMIT <= self.score <= LIMIT
        &&& -LIMIT <= self.generated_height <= LIMIT
        &&& -LIMIT <= self.next_bird <= LIMIT
        &&& 0 <= self.time <= LIMIT
    }

    /// The player's doodle.
    pub open spec fn doodle(&self) -> Doodle {
        self.doodles@[self.player.body]
    }

    /// A world with only the player, resting at the origin; its timers read
    /// `now`, normally zero on the model's fresh clock.
    pub fn new(now: Instant) -> (r: Model)
        ensures
            r.wf(),
            r.world_width == WORLD_WIDTH,
            r.doodle().body == (Body {
                collider: Collider {
                    position: crate::position::origin(WORLD_WIDTH),
                    rotation: 0,
                    shape: Shape::Rectangle { width: DOODLE_SIZE, height: DOODLE_SIZE },
                },
                velocity: Vec2 { x: 0, y: 0 },
                mass: DOODLE_MASS,
            }),
            r.doodle().grounded is None,
            r.doodle().active_triggers@.len() == 0,
            r.score == 0,
            r.time == 0,
            r.generated_height == 0,
            r.next_bird == 0,
            r.camera.center == crate::position::origin(WORLD_WIDTH),
            r.camera.fov == (WORLD_WIDTH - 3 * UNIT) * 9 / 16,
            r.birds@.is_empty(),
            r.clouds@.is_empty(),
            r.projectiles@.is_empty(),
            r.triggers@.is_empty(),
            r.particles@.is_empty(),
            r.effects@.len() == 0,
            r.session_end is None,
    {
        let world_width = WORLD_WIDTH;
        let mut doodles: Arena<Doodle> = Arena::new();
        let body = Body::new(
            Collider::new(
                PositionCylinder::zero(world_width),
                Shape::rectangle(DOODLE_SIZE, DOODLE_SIZE),
            ),
            DOODLE_MASS,
        );
        let player_body = doodles.insert(Doodle::new(body, now));
        assert(doodles@.dom() =~= set![player_body]);
        let birds: Arena<Bird> = Arena::new();
        let clouds: Arena<Cloud> = Arena::new();
        let projectiles: Arena<Projectile> = Arena::new();
        let triggers: Arena<Trigger> = Arena::new();
        let particles: Arena<Particle> = Arena::new();
        Model {
            time: 0,
            score: 0,
            world_width,
            generated_height: 0,
            next_bird: 0,
            // Three units narrower than the world, so that clouds leave the view
            // behind its edge rather than jump from one side to the other.
            camera: Camera::new((world_width - 3 * UNIT) * 9 / 16, world_width),
            player: Player { body: player_body },
            doodles,
            birds,
            clouds,
            projectiles,
            triggers,
            particles,
            effects: Vec::new(),
            session_end: None,
            clock: Clock::new(),
        }
    }

    pub open spec fn current_score_spec(&self) -> int {
        self.score + (self.camera.center.pos.y * HEIGHT_SCORE) / (UNIT as int)
    }

    /// The event points plus five per unit of height reached, rounded down.
    pub fn current_score(&self) -> (r: i64)
        requires
            self.wf(),
        ensures
            r == self.current_score_spec(),
    {
        let scaled = self.camera.center.pos.y * HEIGHT_SCORE;
        let height = if scaled >= 0 {
            scaled / UNIT
        } else {
            let q = (-scaled) / UNIT;
            let rem = (-scaled) % UNIT;
            proof {
                let a = scaled as int;
                vstd::arithmetic::div_mod::lemma_fundamental_div_mod(-a, UNIT as int);
                if rem == 0 {
                    vstd::arithmetic::div_mod::lemma_fundamental_div_mod_converse(
                        a,
                        UNIT as int,
                        -q,
                        0,
                    );
                } else {
                    vstd::arithmetic::div_mod::lemma_fundamental_div_mod_converse(
                        a,
                        UNIT as int,
                        -q - 1,
                        UNIT - rem,
                    );
                }
            }
            if rem == 0 {
                -q
            } else {
                -q - 1
            }
        };
        self.score + height
    }

    /// Hands the emitted sounds and bursts to the caller and forgets them.
    pub fn drain_effects(&mut self) -> (r: Vec<Effect>)
        ensures
            r@ == old(self).effects@,
            final(self).effects@.len() == 0,
            final(self).time == old(self).time,
            final(self).score == old(self).score,
            final(self).world_width == old(self).world_width,
            final(self).generated_height == old(self).generated_height,
            final(self).next_bird == old(self).next_bird,
            final(self).camera == old(self).camera,
            final(self).player == old(self).player,
            final(self).session_end == old(self).session_end,
            final(self).doodles@ == old(self).doodles@,
            final(self).birds@ == old(self).birds@,
            final(self).clouds@ == old(self).clouds@,
            final(self).projectiles@ == old(self).projectiles@,
            final(self).triggers@ == old(self).triggers@,
            final(self).particles@ == old(self).particles@,
    {
        let mut out: Vec<Effect> = Vec::new();
        core::mem::swap(&mut out, &mut self.effects);
        out
    }
}

} // verus!
