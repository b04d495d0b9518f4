//! The simulation state and its per-frame step: input application, actor
//! integration, collision passes, hazard advance, camera follow, world
//! streaming and eviction, difficulty ramp and end-of-game detection.

use vstd::prelude::*;
use crate::assets::GameAssets;
use crate::character::{Character, State, PLAYER_SIZE};
use crate::fixed::{
    clamped, clamp_magnitude, clamp_to, div_toward_zero, lemma_milli_mul_bound, lemma_milli_mul_nonneg,
    lemma_product_cap, mag, milli_mul, milli_product, quot_toward_zero, wrap_cycle,
};
use crate::geometry::{Camera, Vec2, DIST_CAP, LOOKAHEAD, VISIBLE_BEHIND};
use crate::render::TextureId;
use crate::rng::GameRng;

verus! {

/// Half-extent of a parked car, in milli-units.
pub const OBSTACLE_SIZE: i64 = 230;

/// The sand band of the road starts here.
pub const BEACH_START: i64 = 2_000;

/// The sand band ends here; past it the city band begins.
pub const BEACH_END: i64 = 20_000;

/// Where the wave starts, far behind the player.
pub const WAVE_START: i64 = -500_000;

/// While the wave is still behind this mark, the run is in its pre-roll and
/// time is scaled by how far behind the wave is, so it creeps in slowly.
pub const CREEP_UNTIL: i64 = -4_000;

/// Distance between two scenery batches.
pub const HOUSE_STEP: i64 = 1_000;

/// Distance between two obstacle batches.
pub const OBSTACLE_STEP: i64 = 2_000;

/// Lateral offset of spawned houses, either side of the road.
pub const HOUSE_LANE: i64 = 1_300;

/// Lateral offset of spawned cars, either side of the road centre.
pub const OBSTACLE_LANE: i64 = 250;

/// Initial game-speed multiplier (one).
pub const SPEED_START: i64 = 1_000;

/// Game speed pinned once the player is down, so the wave catches up.
pub const SPEED_FALLEN: i64 = 2_000;

/// The difficulty ramp never exceeds this multiplier.
pub const SPEED_CAP: i64 = 1_000_000;

/// Longest raw frame step a single update accepts, in milli-seconds.
pub const FRAME_DT_CAP: i64 = 1_000;

/// How far the run can advance before the caller must stop stepping it; far
/// beyond any playable session, this is purely a machine limit.
pub const PLAY_CAP: i64 = 1_000_000_000;

/// A static decorative or collidable entity: a house or a parked car.
#[derive(Clone, Copy, PartialEq, Eq, Structural, Debug)]
pub struct Decor {
    pub position: Vec2,
    pub texture: TextureId,
}

/// The per-frame input snapshot the simulation consumes; it owns no polling.
#[derive(Clone, Copy, PartialEq, Eq, Structural, Debug)]
pub struct Input {
    pub left: bool,
    pub right: bool,
    /// Viewport size in pixels, for pointer steering.
    pub window_width: i64,
    pub window_height: i64,
}

/// An abstract input event, already stripped of any windowing detail.
#[derive(Clone, Copy, PartialEq, Eq, Structural, Debug)]
pub enum Event {
    KeyDown { restart_key: bool },
    MouseDown { x: i64 },
    MouseMove { x: i64 },
    MouseUp,
    TouchStart { x: i64 },
    TouchMove { x: i64 },
    TouchEnd,
}

pub struct GameState {
    pub assets: GameAssets,
    pub rng: GameRng,
    pub camera: Camera,
    pub player: Character,
    pub tsunami_position: i64,
    pub next_house: i64,
    pub next_obstacle: i64,
    pub houses: Vec<Decor>,
    pub obstacles: Vec<Decor>,
    pub characters: Vec<Character>,
    pub game_speed: i64,
    /// Elapsed run time; `None` until the first input starts the run.
    pub time: Option<i64>,
    /// Pointer x in pixels while a press is held, for proportional steering.
    pub pressed_location: Option<i64>,
    pub tsunami_animation: i64,
    /// A requested restart: `Some(true)` keeps the intro skipped.
    pub pending_restart: Option<bool>,
}

impl GameState {
    /// Distance of the camera plane, the forward edge of the visible window.
    pub open spec fn plane(self) -> int {
        self.camera.plane()
    }

    pub open spec fn decor_in_window(self, d: Decor) -> bool {
        self.camera.far_distance <= d.position.y <= self.plane()
    }

    pub open spec fn house_ok(self, d: Decor) -> bool {
        &&& self.decor_in_window(d)
        &&& mag(d.position.x as int) <= 2_000
        &&& match d.texture {
            TextureId::House(i) => i < self.assets.houses.len(),
            TextureId::BeachHouse(i) => i < self.assets.beach_houses.len(),
            _ => false,
        }
    }

    pub open spec fn obstacle_ok(self, d: Decor) -> bool {
        &&& self.decor_in_window(d)
        &&& mag(d.position.x as int) <= 250
        &&& match d.texture {
            TextureId::Car(i) => i < self.assets.cars.len(),
            _ => false,
        }
    }

    /// Computer-driven runners never steer; they only run forward, and the
    /// eviction pass keeps them inside the window up to the forward slack of
    /// one integration step.
    pub open spec fn npc_ok(self, c: Character) -> bool {
        &&& c.wf()
        &&& c.velocity.x == 0
        &&& 0 <= c.velocity.y
        &&& mag(c.position.x as int) <= 600
        &&& self.camera.far_distance <= c.position.y <= self.plane() + 1_000_000
    }

    pub open spec fn wf(self) -> bool {
        &&& self.assets.wf()
        &&& self.camera.wf()
        &&& self.camera.camera_near == 1_000
        &&& self.camera.road_ratio == 500
        &&& self.camera.near_distance <= DIST_CAP - 2_000_000
        &&& -DIST_CAP + 100_000 <= self.camera.far_distance
        &&& self.player.wf()
        &&& self.player.position.y + LOOKAHEAD <= self.camera.near_distance
        &&& self.camera.near_distance <= self.player.position.y + 10_000
        &&& self.player.position.y - VISIBLE_BEHIND <= self.camera.far_distance
        &&& mag(self.player.position.x as int) <= 1_000
        &&& WAVE_START <= self.tsunami_position
        &&& (self.tsunami_position < CREEP_UNTIL ==> self.game_speed <= SPEED_FALLEN)
        &&& SPEED_START <= self.game_speed <= SPEED_CAP
        &&& 0 <= self.tsunami_animation < 1_000
        &&& (self.time matches Some(t) ==> 0 <= t)
        &&& (self.time is None ==> self.tsunami_position == WAVE_START)
        &&& (self.pressed_location matches Some(x) ==> mag(x as int) <= 1_000_000)
        &&& BEACH_START + HOUSE_STEP <= self.next_house <= DIST_CAP - 100_000
        &&& 10_000 <= self.next_obstacle <= DIST_CAP - 100_000
        &&& forall|i: int| 0 <= i < self.houses.len() ==> self.house_ok(#[trigger] self.houses[i])
        &&& forall|i: int|
            0 <= i < self.obstacles.len() ==> self.obstacle_ok(#[trigger] self.obstacles[i])
        &&& forall|i: int|
            0 <= i < self.characters.len() ==> self.npc_ok(#[trigger] self.characters[i])
    }

    /// No car sits within a combined half-extent plus one contact push of
    /// the given forward distance, and no runner within contact reach of it:
    /// a frame whose player integrates to such a distance sees no collision
    /// response at all.
    pub open spec fn lane_clear_at(self, y: int) -> bool {
        &&& forall|j: int|
            0 <= j < self.obstacles@.len() ==> mag(
                y - (#[trigger] self.obstacles@[j]).position.y,
            ) >= PLAYER_SIZE + OBSTACLE_SIZE + 2 * PLAYER_SIZE
        &&& forall|j: int|
            0 <= j < self.characters@.len() ==> mag(
                y - (#[trigger] self.characters@[j]).position.y,
            ) >= 2 * PLAYER_SIZE
    }

    /// The wave has overtaken the visible window: the run is over.
    pub open spec fn game_finished_spec(self) -> bool {
        self.tsunami_position > self.plane()
    }

    pub fn game_finished(&self) -> (r: bool)
        requires
            self.camera.wf(),
        ensures
            r == self.game_finished_spec(),
    {
        self.tsunami_position > self.camera.near_distance + self.camera.camera_near
    }

    /// A fresh run. The world is empty; the streaming pass of the first
    /// update populates it up to the horizon. The random source is seeded
    /// here, so an entire run is a function of its seed and its inputs.
    pub fn new(assets: GameAssets, seed: u64, skip_intro: bool) -> (s: GameState)
        requires
            assets.wf(),
        ensures
            s.wf(),
            s.assets == assets,
            s.camera == (Camera {
                near_distance: 10_000,
                far_distance: 0,
                camera_near: 1_000,
                road_ratio: 500,
            }),
            s.player == (Character {
                state: State::Run,
                animation_position: 0,
                position: Vec2 { x: 0, y: 1_000 },
                velocity: Vec2 { x: 0, y: 0 },
            }),
            s.tsunami_position == WAVE_START,
            s.next_house == BEACH_START + HOUSE_STEP,
            s.next_obstacle == 10_000,
            s.houses@ =~= Seq::<Decor>::empty(),
            s.obstacles@ =~= Seq::<Decor>::empty(),
            s.characters@ =~= Seq::<Character>::empty(),
            s.game_speed == SPEED_START,
            s.time == (if skip_intro { Some(0i64) } else { None::<i64> }),
            s.pressed_location is None,
            s.tsunami_animation == 0,
            s.pending_restart is None,
    {
        GameState {
            assets,
            rng: GameRng::from_seed(seed),
            camera: Camera {
                near_distance: 10_000,
                far_distance: 0,
                camera_near: 1_000,
                road_ratio: 500,
            },
            player: Character::new(Vec2 { x: 0, y: 1_000 }),
            tsunami_position: WAVE_START,
            next_house: BEACH_START + HOUSE_STEP,
            next_obstacle: 10_000,
            houses: Vec::new(),
            obstacles: Vec::new(),
            characters: Vec::new(),
            game_speed: SPEED_START,
            time: if skip_intro {
                Some(0)
            } else {
                None
            },
            pressed_location: None,
            tsunami_animation: 0,
            pending_restart: None,
        }
    }

    /// Feed one abstract event in. A first press starts the clock; a press
    /// after the wave has won requests a quick restart; the restart key
    /// requests a full restart; press/move/release track the pointer for
    /// proportional steering.
    pub fn handle_event(&mut self, event: Event)
        requires
            old(self).wf(),
            (event matches Event::MouseDown { x } ==> mag(x as int) <= 1_000_000),
            (event matches Event::MouseMove { x } ==> mag(x as int) <= 1_000_000),
            (event matches Event::TouchStart { x } ==> mag(x as int) <= 1_000_000),
            (event matches Event::TouchMove { x } ==> mag(x as int) <= 1_000_000),
        ensures
            final(self).wf(),
            final(self).assets == old(self).assets,
            final(self).camera == old(self).camera,
            final(self).player == old(self).player,
            final(self).tsunami_position == old(self).tsunami_position,
            final(self).next_house == old(self).next_house,
            final(self).next_obstacle == old(self).next_obstacle,
            final(self).houses == old(self).houses,
            final(self).obstacles == old(self).obstacles,
            final(self).characters == old(self).characters,
            final(self).game_speed == old(self).game_speed,
            final(self).tsunami_animation == old(self).tsunami_animation,
            final(self).time == (if old(self).starts_clock(event) {
                Some(0i64)
            } else {
                old(self).time
            }),
            final(self).pending_restart == old(self).restart_after(event),
            final(self).pressed_location == old(self).pressed_after(event),
    {
        match event {
            Event::KeyDown { .. } | Event::MouseDown { .. } | Event::TouchStart { .. } => {
                if self.time.is_none() {
                    self.time = Some(0);
                } else if self.tsunami_position > self.camera.camera_near
                    + self.camera.near_distance {
                    self.pending_restart = Some(true);
                }
            },
            _ => {},
        }
        match event {
            Event::MouseDown { x } => {
                self.pressed_location = Some(x);
            },
            Event::MouseMove { x } => {
                if self.pressed_location.is_some() {
                    self.pressed_location = Some(x);
                }
            },
            Event::MouseUp => {
                self.pressed_location = None;
            },
            Event::TouchStart { x } => {
                self.pressed_location = Some(x);
            },
            Event::TouchMove { x } => {
                if self.pressed_location.is_some() {
                    self.pressed_location = Some(x);
                }
            },
            Event::TouchEnd => {
                self.pressed_location = None;
            },
            _ => {},
        }
        if (event matches Event::KeyDown { restart_key: true }) {
            self.pending_restart = Some(false);
        }
    }

    /// Whether this event starts the run clock.
    pub open spec fn starts_clock(self, event: Event) -> bool {
        &&& self.time is None
        &&& match event {
            Event::KeyDown { .. } | Event::MouseDown { .. } | Event::TouchStart { .. } => true,
            _ => false,
        }
    }

    /// The restart request left behind by an event.
    pub open spec fn restart_after(self, event: Event) -> Option<bool> {
        if event matches Event::KeyDown { restart_key: true } {
            Some(false)
        } else {
            match event {
                Event::KeyDown { .. } | Event::MouseDown { .. } | Event::TouchStart { .. } => {
                    if self.time is Some && self.game_finished_spec() {
                        Some(true)
                    } else {
                        self.pending_restart
                    }
                },
                _ => self.pending_restart,
            }
        }
    }

    /// The tracked pointer position after an event.
    pub open spec fn pressed_after(self, event: Event) -> Option<i64> {
        match event {
            Event::MouseDown { x } => Some(x),
            Event::TouchStart { x } => Some(x),
            Event::MouseMove { x } => if self.pressed_location is Some {
                Some(x)
            } else {
                None
            },
            Event::TouchMove { x } => if self.pressed_location is Some {
                Some(x)
            } else {
                None
            },
            Event::MouseUp => None,
            Event::TouchEnd => None,
            Event::KeyDown { .. } => self.pressed_location,
        }
    }

    /// Raw frame time: frozen at zero until the first input starts the run.
    pub open spec fn raw_dt(self, dt: int) -> int {
        if self.time is None {
            0
        } else {
            dt
        }
    }

    /// The frame time after the pre-roll scaling: while the wave is still far
    /// behind, the step is scaled by how far behind it is, so the wave creeps
    /// in slowly before the run reaches full speed.
    pub open spec fn creep_dt(self, dt: int) -> int {
        if self.tsunami_position < CREEP_UNTIL {
            milli_mul(self.raw_dt(dt), -(self.tsunami_position as int))
        } else {
            self.raw_dt(dt)
        }
    }

    /// The game-speed multiplier after this frame's difficulty ramp: steady
    /// during the pre-roll, climbing while the player runs, pinned to the
    /// fallen value once the player is down.
    pub open spec fn next_speed(self, dt: int) -> int {
        if self.tsunami_position < CREEP_UNTIL {
            self.game_speed as int
        } else if self.player.state is Run {
            self.game_speed + self.raw_dt(dt) / 20
        } else {
            SPEED_FALLEN as int
        }
    }

    /// The effective step the simulation advances by this frame.
    pub open spec fn effective_dt(self, dt: int) -> int {
        milli_mul(self.creep_dt(dt), self.next_speed(dt))
    }

    /// The run clock after one frame: it accrues raw frame time only while
    /// the wave has not yet won.
    pub open spec fn clock_after(self, dt: int) -> Option<i64> {
        match self.time {
            None => None,
            Some(t) => if self.tsunami_position < self.plane() {
                Some((t + dt) as i64)
            } else {
                Some(t)
            },
        }
    }

    /// Hand out and clear a pending restart request.
    pub fn transition(&mut self) -> (r: Option<bool>)
        ensures
            r == old(self).pending_restart,
            final(self).pending_restart is None,
            final(self).assets == old(self).assets,
            final(self).camera == old(self).camera,
            final(self).player == old(self).player,
            final(self).tsunami_position == old(self).tsunami_position,
            final(self).next_house == old(self).next_house,
            final(self).next_obstacle == old(self).next_obstacle,
            final(self).houses == old(self).houses,
            final(self).obstacles == old(self).obstacles,
            final(self).characters == old(self).characters,
            final(self).game_speed == old(self).game_speed,
            final(self).time == old(self).time,
            final(self).pressed_location == old(self).pressed_location,
            final(self).tsunami_animation == old(self).tsunami_animation,
            old(self).wf() ==> final(self).wf(),
    {
        let r: Option<bool> = self.pending_restart;
        self.pending_restart = None;
        r
    }

    /// Pick a house texture for the band the scenery cursor is in: city
    /// houses past the beach, beach houses on it.
    pub fn random_house(&mut self) -> (t: TextureId)
        requires
            old(self).assets.wf(),
        ensures
            final(self).assets == old(self).assets,
            final(self).camera == old(self).camera,
            final(self).player == old(self).player,
            final(self).tsunami_position == old(self).tsunami_position,
            final(self).next_house == old(self).next_house,
            final(self).next_obstacle == old(self).next_obstacle,
            final(self).houses == old(self).houses,
            final(self).obstacles == old(self).obstacles,
            final(self).characters == old(self).characters,
            final(self).game_speed == old(self).game_speed,
            final(self).time == old(self).time,
            final(self).pressed_location == old(self).pressed_location,
            final(self).tsunami_animation == old(self).tsunami_animation,
            final(self).pending_restart == old(self).pending_restart,
            old(self).next_house > BEACH_END ==> (t matches TextureId::House(i)
                && i < old(self).assets.houses.len()),
            old(self).next_house <= BEACH_END ==> (t matches TextureId::BeachHouse(i)
                && i < old(self).assets.beach_houses.len()),
    {
        if self.next_house > BEACH_END {
            let i: usize = self.rng.pick_index(self.assets.houses.len());
            TextureId::House(i)
        } else {
            let i: usize = self.rng.pick_index(self.assets.beach_houses.len());
            TextureId::BeachHouse(i)
        }
    }

    /// A freshly spawned house, before the eviction pass has trimmed the
    /// window: valid texture, roadside lane, not past the horizon.
    pub open spec fn house_pre_ok(self, d: Decor) -> bool {
        &&& d.position.y <= self.plane()
        &&& mag(d.position.x as int) <= 2_000
        &&& match d.texture {
            TextureId::House(i) => i < self.assets.houses.len(),
            TextureId::BeachHouse(i) => i < self.assets.beach_houses.len(),
            _ => false,
        }
    }

    /// A freshly spawned car, before the eviction pass.
    pub open spec fn obstacle_pre_ok(self, d: Decor) -> bool {
        &&& d.position.y <= self.plane()
        &&& mag(d.position.x as int) <= 250
        &&& match d.texture {
            TextureId::Car(i) => i < self.assets.cars.len(),
            _ => false,
        }
    }

    /// A freshly spawned runner, before the eviction pass.
    pub open spec fn npc_pre_ok(self, c: Character) -> bool {
        &&& c.wf()
        &&& c.velocity.x == 0
        &&& 0 <= c.velocity.y
        &&& mag(c.position.x as int) <= 600
        &&& c.position.y <= self.plane() + 1_000_000
    }

    /// Scenery streaming: while the horizon has passed the scenery cursor,
    /// spawn the next batch and step the cursor — a catch-up loop, so the
    /// world is populated up to the horizon however far one frame advanced.
    /// In the city band a batch is a pair of houses, one per side; on the
    /// beach it is a single house on a random side.
    pub fn spawn_houses(&mut self)
        requires
            old(self).assets.wf(),
            old(self).camera.wf(),
            old(self).camera.near_distance <= DIST_CAP - 2_000_000,
            BEACH_START + HOUSE_STEP <= old(self).next_house <= DIST_CAP - 100_000,
        ensures
            final(self).assets == old(self).assets,
            final(self).camera == old(self).camera,
            final(self).player == old(self).player,
            final(self).tsunami_position == old(self).tsunami_position,
            final(self).next_obstacle == old(self).next_obstacle,
            final(self).obstacles == old(self).obstacles,
            final(self).characters == old(self).characters,
            final(self).game_speed == old(self).game_speed,
            final(self).time == old(self).time,
            final(self).pressed_location == old(self).pressed_location,
            final(self).tsunami_animation == old(self).tsunami_animation,
            final(self).pending_restart == old(self).pending_restart,
            final(self).next_house == old(self).next_house + HOUSE_STEP * batches(
                old(self).next_house as int,
                old(self).plane(),
                HOUSE_STEP as int,
            ),
            old(self).plane() <= final(self).next_house,
            old(self).next_house <= final(self).next_house <= DIST_CAP - 100_000,
            old(self).houses@.len() <= final(self).houses@.len(),
            forall|i: int|
                0 <= i < old(self).houses@.len() ==> final(self).houses@[i] == old(self).houses@[i],
            forall|i: int|
                old(self).houses@.len() <= i < final(self).houses@.len() ==> final(self).house_pre_ok(#[trigger] final(self).houses@[i]) && old(self).next_house <= final(self).houses@[i].position.y,
            house_batches_ok(
                old(self).assets,
                final(self).houses@.skip(old(self).houses@.len() as int),
                old(self).next_house as int,
                final(self).next_house as int,
            ),
            final(self).houses@.len() >= old(self).houses@.len() + batches(
                old(self).next_house as int,
                old(self).plane(),
                HOUSE_STEP as int,
            ),
    {
        let plane: i64 = self.camera.near_distance + self.camera.camera_near;
        let ghost c0: int = self.next_house as int;
        while plane > self.next_house
            invariant
                self.wf_spawn_frame(*old(self)),
                plane == old(self).plane(),
                c0 + HOUSE_STEP * batches(c0, plane as int, HOUSE_STEP as int) == self.next_house
                    + HOUSE_STEP * batches(
                    self.next_house as int,
                    plane as int,
                    HOUSE_STEP as int,
                ),
                c0 <= self.next_house,
                self.next_house <= plane + HOUSE_STEP || self.next_house == c0,
                c0 == old(self).next_house,
                BEACH_START + HOUSE_STEP <= c0 <= DIST_CAP - 100_000,
                self.next_obstacle == old(self).next_obstacle,
                self.obstacles == old(self).obstacles,
                self.characters == old(self).characters,
                old(self).houses@.len() <= self.houses@.len(),
                forall|i: int|
                    0 <= i < old(self).houses@.len() ==> self.houses@[i] == old(self).houses@[i],
                forall|i: int|
                    old(self).houses@.len() <= i < self.houses@.len() ==> old(self).house_pre_ok(#[trigger] self.houses@[i]) && c0 <= self.houses@[i].position.y,
                house_batches_ok(
                    old(self).assets,
                    self.houses@.skip(old(self).houses@.len() as int),
                    c0,
                    self.next_house as int,
                ),
                (self.next_house - c0) % (HOUSE_STEP as int) == 0,
                self.houses@.len() >= old(self).houses@.len() + (self.next_house - c0) / (
                HOUSE_STEP as int),
            decreases plane + HOUSE_STEP - self.next_house,
        {
            proof {
                lemma_batches_unfold(self.next_house as int, plane as int, HOUSE_STEP as int);
            }
            let ghost base: int = old(self).houses@.len() as int;
            let ghost rows_before: Seq<Decor> = self.houses@.skip(base);
            let ghost cur: int = self.next_house as int;
            if self.next_house > BEACH_END {
                let t1: TextureId = self.random_house();
                self.houses.push(Decor {
                    position: Vec2 { x: HOUSE_LANE, y: self.next_house },
                    texture: t1,
                });
                let t2: TextureId = self.random_house();
                self.houses.push(Decor {
                    position: Vec2 { x: -HOUSE_LANE, y: self.next_house },
                    texture: t2,
                });
                proof {
                    let tail = self.houses@.skip(base).skip(rows_before.len() as int);
                    assert(self.houses@.skip(base) =~= rows_before + tail);
                    assert(tail.len() == 2);
                    lemma_house_batches_extend(
                        old(self).assets,
                        rows_before,
                        tail,
                        c0,
                        cur,
                    );
                }
            } else {
                let side: bool = self.rng.chance(1, 2);
                let t: TextureId = self.random_house();
                let x: i64 = if side {
                    HOUSE_LANE
                } else {
                    -HOUSE_LANE
                };
                self.houses.push(Decor {
                    position: Vec2 { x, y: self.next_house },
                    texture: t,
                });
                proof {
                    let tail = self.houses@.skip(base).skip(rows_before.len() as int);
                    assert(self.houses@.skip(base) =~= rows_before + tail);
                    assert(tail.len() == 1);
                    lemma_house_batches_extend(
                        old(self).assets,
                        rows_before,
                        tail,
                        c0,
                        cur,
                    );
                }
            }
            proof {
                vstd::arithmetic::div_mod::lemma_mod_add_multiples_vanish(
                    self.next_house - c0,
                    HOUSE_STEP as int,
                );
                let q = (self.next_house - c0) / (HOUSE_STEP as int);
                vstd::arithmetic::div_mod::lemma_fundamental_div_mod(
                    self.next_house - c0,
                    HOUSE_STEP as int,
                );
                vstd::arithmetic::div_mod::lemma_div_multiples_vanish(
                    q + 1,
                    HOUSE_STEP as int,
                );
                assert((HOUSE_STEP as int) * q == (self.next_house - c0)) by (nonlinear_arith)
                    requires
                        self.next_house - c0 == (HOUSE_STEP as int) * q + (self.next_house - c0)
                            % (HOUSE_STEP as int),
                        (self.next_house - c0) % (HOUSE_STEP as int) == 0;
                assert((HOUSE_STEP as int) * (q + 1) == (self.next_house + HOUSE_STEP - c0))
                    by (nonlinear_arith)
                    requires
                        (HOUSE_STEP as int) * q == self.next_house - c0;
            }
            self.next_house = self.next_house + HOUSE_STEP;
        }
        proof {
            lemma_batches_done(self.next_house as int, plane as int, HOUSE_STEP as int);
            let q = (self.next_house - c0) / (HOUSE_STEP as int);
            let b = batches(c0, plane as int, HOUSE_STEP as int);
            assert(self.next_house - c0 == HOUSE_STEP * b);
            vstd::arithmetic::div_mod::lemma_div_multiples_vanish(b, HOUSE_STEP as int);
            assert((HOUSE_STEP as int) * b == HOUSE_STEP * b) by (nonlinear_arith);
        }
    }

    /// The frame of state a streaming loop never touches.
    spec fn wf_spawn_frame(self, orig: GameState) -> bool {
        &&& self.assets == orig.assets
        &&& self.camera == orig.camera
        &&& self.player == orig.player
        &&& self.tsunami_position == orig.tsunami_position
        &&& self.game_speed == orig.game_speed
        &&& self.time == orig.time
        &&& self.pressed_location == orig.pressed_location
        &&& self.tsunami_animation == orig.tsunami_animation
        &&& self.pending_restart == orig.pending_restart
        &&& self.assets.wf()
        &&& self.camera.wf()
        &&& self.camera.near_distance <= DIST_CAP - 2_000_000
    }

    /// Obstacle streaming: the same catch-up loop, stepping the obstacle
    /// cursor. Most batches spawn a forward-running character at a random
    /// lane; the rest park a car just left or right of the road centre.
    pub fn spawn_obstacles(&mut self)
        requires
            old(self).assets.wf(),
            old(self).camera.wf(),
            old(self).camera.near_distance <= DIST_CAP - 2_000_000,
            10_000 <= old(self).next_obstacle <= DIST_CAP - 100_000,
        ensures
            final(self).assets == old(self).assets,
            final(self).camera == old(self).camera,
            final(self).player == old(self).player,
            final(self).tsunami_position == old(self).tsunami_position,
            final(self).next_house == old(self).next_house,
            final(self).houses == old(self).houses,
            final(self).game_speed == old(self).game_speed,
            final(self).time == old(self).time,
            final(self).pressed_location == old(self).pressed_location,
            final(self).tsunami_animation == old(self).tsunami_animation,
            final(self).pending_restart == old(self).pending_restart,
            final(self).next_obstacle == old(self).next_obstacle + OBSTACLE_STEP * batches(
                old(self).next_obstacle as int,
                old(self).plane(),
                OBSTACLE_STEP as int,
            ),
            old(self).plane() <= final(self).next_obstacle,
            old(self).next_obstacle <= final(self).next_obstacle <= DIST_CAP - 100_000,
            final(self).obstacles@.len() + final(self).characters@.len() == old(self).obstacles@.len() + old(self).characters@.len() + batches(
                old(self).next_obstacle as int,
                old(self).plane(),
                OBSTACLE_STEP as int,
            ),
            old(self).obstacles@.len() <= final(self).obstacles@.len(),
            old(self).characters@.len() <= final(self).characters@.len(),
            forall|i: int|
                0 <= i < old(self).obstacles@.len() ==> final(self).obstacles@[i] == old(self).obstacles@[i],
            forall|i: int|
                0 <= i < old(self).characters@.len() ==> final(self).characters@[i] == old(self).characters@[i],
            forall|i: int|
                old(self).obstacles@.len() <= i < final(self).obstacles@.len() ==> final(self).obstacle_pre_ok(#[trigger] final(self).obstacles@[i]) && old(self).next_obstacle
                    <= final(self).obstacles@[i].position.y,
            forall|i: int|
                old(self).characters@.len() <= i < final(self).characters@.len() ==> final(self).npc_pre_ok(#[trigger] final(self).characters@[i]) && old(self).next_obstacle
                    <= final(self).characters@[i].position.y,
            obstacle_batches_ok(
                old(self).assets,
                final(self).obstacles@.skip(old(self).obstacles@.len() as int),
                final(self).characters@.skip(old(self).characters@.len() as int),
                old(self).next_obstacle as int,
                final(self).next_obstacle as int,
            ),
    {
        let plane: i64 = self.camera.near_distance + self.camera.camera_near;
        let ghost c0: int = self.next_obstacle as int;
        while plane > self.next_obstacle
            invariant
                self.wf_spawn_frame(*old(self)),
                plane == old(self).plane(),
                c0 + OBSTACLE_STEP * batches(c0, plane as int, OBSTACLE_STEP as int)
                    == self.next_obstacle + OBSTACLE_STEP * batches(
                    self.next_obstacle as int,
                    plane as int,
                    OBSTACLE_STEP as int,
                ),
                c0 <= self.next_obstacle,
                self.next_obstacle <= plane + OBSTACLE_STEP || self.next_obstacle == c0,
                c0 == old(self).next_obstacle,
                10_000 <= c0 <= DIST_CAP - 100_000,
                self.next_house == old(self).next_house,
                self.houses == old(self).houses,
                self.obstacles@.len() + self.characters@.len() + batches(
                    self.next_obstacle as int,
                    plane as int,
                    OBSTACLE_STEP as int,
                ) == old(self).obstacles@.len() + old(self).characters@.len() + batches(
                    c0,
                    plane as int,
                    OBSTACLE_STEP as int,
                ),
                old(self).obstacles@.len() <= self.obstacles@.len(),
                old(self).characters@.len() <= self.characters@.len(),
                forall|i: int|
                    0 <= i < old(self).obstacles@.len() ==> self.obstacles@[i] == old(self).obstacles@[i],
                forall|i: int|
                    0 <= i < old(self).characters@.len() ==> self.characters@[i] == old(self).characters@[i],
                forall|i: int|
                    old(self).obstacles@.len() <= i < self.obstacles@.len() ==> old(self).obstacle_pre_ok(#[trigger] self.obstacles@[i]) && c0
                        <= self.obstacles@[i].position.y,
                forall|i: int|
                    old(self).characters@.len() <= i < self.characters@.len() ==> old(self).npc_pre_ok(#[trigger] self.characters@[i]) && c0
                        <= self.characters@[i].position.y,
                obstacle_batches_ok(
                    old(self).assets,
                    self.obstacles@.skip(old(self).obstacles@.len() as int),
                    self.characters@.skip(old(self).characters@.len() as int),
                    c0,
                    self.next_obstacle as int,
                ),
                (self.next_obstacle - c0) % (OBSTACLE_STEP as int) == 0,
            decreases plane + OBSTACLE_STEP - self.next_obstacle,
        {
            proof {
                lemma_batches_unfold(self.next_obstacle as int, plane as int, OBSTACLE_STEP as int);
            }
            let ghost car_base: int = old(self).obstacles@.len() as int;
            let ghost runner_base: int = old(self).characters@.len() as int;
            let ghost cars_before: Seq<Decor> = self.obstacles@.skip(car_base);
            let ghost runners_before: Seq<Character> = self.characters@.skip(runner_base);
            let ghost cur: int = self.next_obstacle as int;
            if self.rng.chance(7, 10) {
                let x: i64 = self.rng.range_milli(-400, 401);
                let vy: i64 = self.rng.range_milli(300, 700);
                let mut npc: Character = Character::new(Vec2 { x, y: self.next_obstacle });
                npc.velocity = Vec2 { x: 0, y: vy };
                self.characters.push(npc);
                proof {
                    let runner_tail = self.characters@.skip(runner_base).skip(
                        runners_before.len() as int,
                    );
                    assert(self.characters@.skip(runner_base) =~= runners_before + runner_tail);
                    assert(runner_tail.len() == 1);
                    lemma_obstacle_batches_extend(
                        old(self).assets,
                        cars_before,
                        runners_before,
                        Seq::<Decor>::empty(),
                        runner_tail,
                        c0,
                        cur,
                    );
                    assert(cars_before + Seq::<Decor>::empty() =~= cars_before);
                }
            } else {
                let side: bool = self.rng.chance(1, 2);
                let x: i64 = if side {
                    OBSTACLE_LANE
                } else {
                    -OBSTACLE_LANE
                };
                let i: usize = self.rng.pick_index(self.assets.cars.len());
                self.obstacles.push(Decor {
                    position: Vec2 { x, y: self.next_obstacle },
                    texture: TextureId::Car(i),
                });
                proof {
                    let car_tail = self.obstacles@.skip(car_base).skip(cars_before.len() as int);
                    assert(self.obstacles@.skip(car_base) =~= cars_before + car_tail);
                    assert(car_tail.len() == 1);
                    lemma_obstacle_batches_extend(
                        old(self).assets,
                        cars_before,
                        runners_before,
                        car_tail,
                        Seq::<Character>::empty(),
                        c0,
                        cur,
                    );
                    assert(runners_before + Seq::<Character>::empty() =~= runners_before);
                }
            }
            proof {
                vstd::arithmetic::div_mod::lemma_mod_add_multiples_vanish(
                    self.next_obstacle - c0,
                    OBSTACLE_STEP as int,
                );
            }
            self.next_obstacle = self.next_obstacle + OBSTACLE_STEP;
        }
        proof {
            lemma_batches_done(self.next_obstacle as int, plane as int, OBSTACLE_STEP as int);
        }
    }
}

impl GameState {
    /// Steering from the input snapshot. Discrete left/right input maps to a
    /// full lateral speed and releases the pointer; while a press is held,
    /// the pointer position overrides it, steering proportionally toward the
    /// lane under the pointer. The forward speed approaches its target
    /// through a clamped per-step change; the lateral speed is instantaneous.
    fn apply_input(&mut self, input: &Input, eff: i64)
        requires
            old(self).player.state is Run,
            old(self).player.wf(),
            mag(old(self).player.position.x as int) <= 1_000,
            (old(self).pressed_location matches Some(x) ==> mag(x as int) <= 1_000_000),
            1 <= input.window_width <= 1_000_000,
            1 <= input.window_height <= 1_000_000,
            0 <= eff <= 1_000_000,
            old(self).camera.road_ratio == 500,
        ensures
            final(self).assets == old(self).assets,
            final(self).camera == old(self).camera,
            final(self).tsunami_position == old(self).tsunami_position,
            final(self).next_house == old(self).next_house,
            final(self).next_obstacle == old(self).next_obstacle,
            final(self).houses == old(self).houses,
            final(self).obstacles == old(self).obstacles,
            final(self).characters == old(self).characters,
            final(self).game_speed == old(self).game_speed,
            final(self).time == old(self).time,
            final(self).tsunami_animation == old(self).tsunami_animation,
            final(self).pending_restart == old(self).pending_restart,
            final(self).player.state == old(self).player.state,
            final(self).player.position == old(self).player.position,
            final(self).player.animation_position == old(self).player.animation_position,
            final(self).pressed_location == (if input.left || input.right {
                None::<i64>
            } else {
                old(self).pressed_location
            }),
            final(self).player.velocity.x == old(self).steered_x(*input),
            final(self).player.velocity.y == old(self).player.velocity.y + clamped(
                1000 - old(self).player.velocity.y,
                -milli_mul(5000, eff as int),
                milli_mul(5000, eff as int),
            ),
            final(self).player.wf(),
    {
        proof {
            lemma_milli_mul_nonneg(5000, eff as int);
        }
        let mut vx: i64 = 0;
        if input.left {
            vx = vx - 1000;
            self.pressed_location = None;
        }
        if input.right {
            vx = vx + 1000;
            self.pressed_location = None;
        }
        self.player.velocity.x = vx;
        match self.pressed_location {
            Some(loc) => {
                let m: i64 = if input.window_width < input.window_height {
                    input.window_width
                } else {
                    input.window_height
                };
                let target: i64 = div_toward_zero((2 * loc - input.window_width) * 1000, m);
                proof {
                    lemma_product_cap(target as int, 500, 3_000_000_000, 500);
                    lemma_milli_mul_bound(target as int, 500, 3_000_000_000, 500);
                }
                let d: i64 = milli_product(target, self.camera.road_ratio)
                    - self.player.position.x;
                self.player.velocity.x = clamp_magnitude(10 * d, 1000);
            },
            None => {},
        }
        proof {
            lemma_product_cap(5000, eff as int, 5000, 1_000_000);
            lemma_milli_mul_bound(5000, eff as int, 5000, 1_000_000);
        }
        let lim: i64 = milli_product(5000, eff);
        let dv: i64 = clamp_to(1000 - self.player.velocity.y, -lim, lim);
        self.player.velocity.y = self.player.velocity.y + dv;
    }

    /// The lateral speed that one input snapshot commands.
    pub open spec fn steered_x(self, input: Input) -> int {
        let kx = (if input.left { -1000int } else { 0int }) + (if input.right { 1000int } else { 0int });
        let pressed = if input.left || input.right { None } else { self.pressed_location };
        match pressed {
            Some(loc) => {
                let m = if input.window_width < input.window_height { input.window_width as int } else { input.window_height as int };
                let target = quot_toward_zero((2 * loc - input.window_width) * 1000, m);
                clamped(10 * (milli_mul(target, 500) - self.player.position.x), -1000, 1000)
            },
            None => kx,
        }
    }

    /// Collision pass: every parked car against every running character, the
    /// player last; a front hit is answered with a sideways knockdown.
    fn obstacle_hits(&mut self, Ghost(cap): Ghost<int>)
        requires
            0 <= cap <= DIST_CAP - 50_000,
            mag(old(self).player.position.x as int) <= 400,
            forall|i: int|
                0 <= i < old(self).obstacles@.len() ==> mag(
                    (#[trigger] old(self).obstacles@[i]).position.x as int,
                ) <= 250 && mag(old(self).obstacles@[i].position.y as int) <= cap,
            forall|i: int|
                0 <= i < old(self).characters@.len() ==> mid_npc(
                    #[trigger] old(self).characters@[i],
                    cap,
                ),
            mid_player(old(self).player, cap),
        ensures
            final(self).assets == old(self).assets,
            final(self).camera == old(self).camera,
            final(self).tsunami_position == old(self).tsunami_position,
            final(self).next_house == old(self).next_house,
            final(self).next_obstacle == old(self).next_obstacle,
            final(self).houses == old(self).houses,
            final(self).obstacles == old(self).obstacles,
            final(self).game_speed == old(self).game_speed,
            final(self).time == old(self).time,
            final(self).pressed_location == old(self).pressed_location,
            final(self).tsunami_animation == old(self).tsunami_animation,
            final(self).pending_restart == old(self).pending_restart,
            final(self).characters@.len() == old(self).characters@.len(),
            forall|i: int|
                0 <= i < final(self).characters@.len() ==> mid_npc(
                    #[trigger] final(self).characters@[i],
                    cap + 600,
                ),
            mid_player(final(self).player, cap + 600),
            !(old(self).player.state is Run) ==> final(self).player == old(self).player,
            old(self).obstacles@.len() == 0 ==> final(self).player == old(self).player && final(self).characters == old(self).characters,
            old(self).player.state is Run ==> (final(self).player.state is Run || final(self).player.state is FallSide),
            (old(self).player.state is Run && final(self).player.state is FallSide) ==> (exists|j: int|
                0 <= j < final(self).obstacles@.len() && (#[trigger] final(self).obstacles@[j]).position.y
                    == final(self).player.position.y + PLAYER_SIZE + OBSTACLE_SIZE && mag(
                    final(self).player.position.x - final(self).obstacles@[j].position.x,
                ) < PLAYER_SIZE + OBSTACLE_SIZE),
            mag(final(self).player.position.x as int) <= 580 || final(self).player.position.x == old(self).player.position.x,
            (old(self).player.state is Run && !(final(self).player.state is Run)) ==> final(self).player.velocity == (Vec2 { x: 0, y: 0 }) && final(self).player.animation_position == 0,
            forall|i: int|
                0 <= i < final(self).characters@.len() ==> car_pass_npc(
                    old(self).characters@[i],
                    #[trigger] final(self).characters@[i],
                    old(self).obstacles@,
                ),
            player_clear_of_cars(old(self).player, old(self).obstacles@) ==> final(self).player
                == old(self).player,
    {
        let mut i: usize = 0;
        while i < self.obstacles.len()
            invariant
                self.assets == old(self).assets,
                self.camera == old(self).camera,
                self.tsunami_position == old(self).tsunami_position,
                self.next_house == old(self).next_house,
                self.next_obstacle == old(self).next_obstacle,
                self.houses == old(self).houses,
                self.obstacles == old(self).obstacles,
                self.game_speed == old(self).game_speed,
                self.time == old(self).time,
                self.pressed_location == old(self).pressed_location,
                self.tsunami_animation == old(self).tsunami_animation,
                self.pending_restart == old(self).pending_restart,
                i <= self.obstacles@.len(),
                0 <= cap <= DIST_CAP - 50_000,
                forall|k: int|
                    0 <= k < self.obstacles@.len() ==> mag(
                        (#[trigger] self.obstacles@[k]).position.x as int,
                    ) <= 250 && mag(self.obstacles@[k].position.y as int) <= cap,
                self.characters@.len() == old(self).characters@.len(),
                forall|k: int|
                    0 <= k < self.characters@.len() ==> mid_npc(
                        #[trigger] self.characters@[k],
                        cap + 600,
                    ),
                mid_player(self.player, cap + 600),
                !(old(self).player.state is Run) ==> self.player == old(self).player,
                old(self).obstacles@.len() == 0 ==> self.player == old(self).player
                    && self.characters == old(self).characters,
                mag(old(self).player.position.x as int) <= 400,
                old(self).player.state is Run ==> (self.player.state is Run
                    || self.player.state is FallSide),
                (old(self).player.state is Run && self.player.state is FallSide) ==> (exists|j: int|
                    0 <= j < self.obstacles@.len() && (#[trigger] self.obstacles@[j]).position.y
                        == self.player.position.y + PLAYER_SIZE + OBSTACLE_SIZE && mag(
                        self.player.position.x - self.obstacles@[j].position.x,
                    ) < PLAYER_SIZE + OBSTACLE_SIZE),
                mag(self.player.position.x as int) <= 580 || self.player.position.x == old(self).player.position.x,
                (old(self).player.state is Run && !(self.player.state is Run)) ==> self.player.velocity == (Vec2 { x: 0, y: 0 }) && self.player.animation_position == 0,
                forall|k: int|
                    0 <= k < self.characters@.len() ==> car_pass_npc(
                        old(self).characters@[k],
                        #[trigger] self.characters@[k],
                        old(self).obstacles@,
                    ),
                player_clear_of_cars(old(self).player, old(self).obstacles@) ==> self.player
                    == old(self).player,
            decreases self.obstacles@.len() - i,
        {
            let pos: Vec2 = self.obstacles[i].position;
            let ghost player_snap: Character = self.player;
            let mut j: usize = 0;
            while j < self.characters.len()
                invariant
                    self.assets == old(self).assets,
                    self.camera == old(self).camera,
                    self.tsunami_position == old(self).tsunami_position,
                    self.next_house == old(self).next_house,
                    self.next_obstacle == old(self).next_obstacle,
                    self.houses == old(self).houses,
                    self.obstacles == old(self).obstacles,
                    self.game_speed == old(self).game_speed,
                    self.time == old(self).time,
                    self.pressed_location == old(self).pressed_location,
                    self.tsunami_animation == old(self).tsunami_animation,
                    self.pending_restart == old(self).pending_restart,
                    j <= self.characters@.len(),
                    0 <= cap <= DIST_CAP - 50_000,
                    mag(pos.x as int) <= 250,
                    mag(pos.y as int) <= cap,
                    self.characters@.len() == old(self).characters@.len(),
                    forall|k: int|
                        0 <= k < self.characters@.len() ==> mid_npc(
                            #[trigger] self.characters@[k],
                            cap + 600,
                        ),
                    mid_player(self.player, cap + 600),
                    self.player == player_snap,
                    !(old(self).player.state is Run) ==> self.player == old(self).player,
                    i < old(self).obstacles@.len(),
                    pos == old(self).obstacles@[i as int].position,
                    forall|k: int|
                        0 <= k < self.characters@.len() ==> car_pass_npc(
                            old(self).characters@[k],
                            #[trigger] self.characters@[k],
                            old(self).obstacles@,
                        ),
                decreases self.characters@.len() - j,
            {
                let ghost c_before: Character = self.characters@[j as int];
                let hit: bool = self.characters[j].check_hit(pos, OBSTACLE_SIZE);
                if hit {
                    self.characters[j].fall_side();
                }
                proof {
                    let c_after = self.characters@[j as int];
                    if c_before.state is Run && c_after.position.y != c_before.position.y {
                        assert(pushed_to_car_edge(
                            c_after.position.y as int,
                            old(self).obstacles@,
                        )) by {
                            assert(old(self).obstacles@[i as int].position.y - (PLAYER_SIZE
                                + OBSTACLE_SIZE) == c_after.position.y || old(
                                self,
                            ).obstacles@[i as int].position.y + PLAYER_SIZE + OBSTACLE_SIZE
                                == c_after.position.y);
                        }
                    }
                    if c_before.state is Run && c_after.state is FallSide {
                        assert(knocked_on_car(c_after, old(self).obstacles@)) by {
                            assert(old(self).obstacles@[i as int].position.y == c_after.position.y
                                + PLAYER_SIZE + OBSTACLE_SIZE && mag(
                                c_after.position.x - old(self).obstacles@[i as int].position.x,
                            ) < PLAYER_SIZE + OBSTACLE_SIZE);
                        }
                    }
                    assert(car_pass_npc(
                        old(self).characters@[j as int],
                        c_after,
                        old(self).obstacles@,
                    ));
                }
                j = j + 1;
            }
            let ghost player_before: Character = self.player;
            let hit_player: bool = self.player.check_hit(pos, OBSTACLE_SIZE);
            if hit_player {
                self.player.fall_side();
            }
            proof {
                if player_before.state is Run && self.player.state is FallSide {
                    assert(self.obstacles@[i as int].position == pos);
                }
                if !hit_player && player_before.state is Run && self.player.position.x
                    != player_before.position.x {
                    assert(self.obstacles@[i as int].position == pos);
                    assert(mag(self.player.position.x - pos.x) == PLAYER_SIZE + OBSTACLE_SIZE);
                }
                if player_clear_of_cars(old(self).player, old(self).obstacles@) {
                    assert(mag(old(self).player.position.x - old(
                        self,
                    ).obstacles@[i as int].position.x) >= PLAYER_SIZE + OBSTACLE_SIZE || mag(
                        old(self).player.position.y - old(self).obstacles@[i as int].position.y,
                    ) >= PLAYER_SIZE + OBSTACLE_SIZE);
                    assert(self.player == old(self).player);
                }
            }
            i = i + 1;
        }
    }

    /// Hazard-proximity and contact pass: a runner close behind the wave is
    /// swept off its feet (falling forward or sideways on a coin flip), and
    /// a runner the player touches knocks the player forward while itself
    /// collapsing sideways.
    fn npc_wave_and_contact(&mut self, Ghost(cap): Ghost<int>)
        requires
            0 <= cap <= DIST_CAP - 49_000,
            forall|i: int|
                0 <= i < old(self).characters@.len() ==> mid_npc(
                    #[trigger] old(self).characters@[i],
                    cap,
                ),
            mid_player(old(self).player, cap),
            mag(old(self).tsunami_position as int) <= DIST_CAP - 10_000,
        ensures
            final(self).assets == old(self).assets,
            final(self).camera == old(self).camera,
            final(self).tsunami_position == old(self).tsunami_position,
            final(self).next_house == old(self).next_house,
            final(self).next_obstacle == old(self).next_obstacle,
            final(self).houses == old(self).houses,
            final(self).obstacles == old(self).obstacles,
            final(self).game_speed == old(self).game_speed,
            final(self).time == old(self).time,
            final(self).pressed_location == old(self).pressed_location,
            final(self).tsunami_animation == old(self).tsunami_animation,
            final(self).pending_restart == old(self).pending_restart,
            final(self).characters@.len() == old(self).characters@.len(),
            forall|i: int|
                0 <= i < final(self).characters@.len() ==> mid_npc(
                    #[trigger] final(self).characters@[i],
                    cap,
                ),
            mid_player(final(self).player, cap + 200),
            !(old(self).player.state is Run) ==> final(self).player == old(self).player,
            old(self).characters@.len() == 0 ==> final(self).player == old(self).player,
            forall|i: int|
                0 <= i < final(self).characters@.len() ==> (#[trigger] final(self).characters@[i]).position == old(self).characters@[i].position,
            forall|i: int|
                0 <= i < final(self).characters@.len() ==> ((#[trigger] final(self).characters@[i]).state is Run ==> final(self).characters@[i].position.y >= old(self).tsunami_position + 1_000),
            old(self).player.state is Run ==> (final(self).player.state is Run || final(self).player.state is Fall),
            (old(self).player.state is Run && final(self).player.state is Fall) ==> (exists|j: int|
                0 <= j < final(self).characters@.len() && !((#[trigger] final(self).characters@[j]).state is Run) && final(self).characters@[j].position.y == final(self).player.position.y + 2 * PLAYER_SIZE && mag(
                    final(self).player.position.x - final(self).characters@[j].position.x,
                ) < 2 * PLAYER_SIZE),
            final(self).player.position.x == old(self).player.position.x || (exists|j: int|
                0 <= j < final(self).characters@.len() && mag(
                    final(self).player.position.x - (#[trigger] final(self).characters@[j]).position.x,
                ) == 2 * PLAYER_SIZE),
            (old(self).player.state is Run && !(final(self).player.state is Run)) ==> final(self).player.velocity == (Vec2 { x: 0, y: 0 }) && final(self).player.animation_position == 0,
            forall|i: int|
                0 <= i < final(self).characters@.len() ==> wave_pass_npc(
                    old(self).characters@[i],
                    #[trigger] final(self).characters@[i],
                ),
            player_clear_of_runners(old(self).player, old(self).characters@) ==> final(self).player
                == old(self).player,
    {
        let mut j: usize = 0;
        while j < self.characters.len()
            invariant
                self.assets == old(self).assets,
                self.camera == old(self).camera,
                self.tsunami_position == old(self).tsunami_position,
                self.next_house == old(self).next_house,
                self.next_obstacle == old(self).next_obstacle,
                self.houses == old(self).houses,
                self.obstacles == old(self).obstacles,
                self.game_speed == old(self).game_speed,
                self.time == old(self).time,
                self.pressed_location == old(self).pressed_location,
                self.tsunami_animation == old(self).tsunami_animation,
                self.pending_restart == old(self).pending_restart,
                j <= self.characters@.len(),
                0 <= cap <= DIST_CAP - 49_000,
                mag(self.tsunami_position as int) <= DIST_CAP - 10_000,
                self.characters@.len() == old(self).characters@.len(),
                forall|k: int|
                    0 <= k < self.characters@.len() ==> mid_npc(
                        #[trigger] self.characters@[k],
                        cap,
                    ),
                mid_player(self.player, cap + 200),
                !(old(self).player.state is Run) ==> self.player == old(self).player,
                old(self).characters@.len() == 0 ==> self.player == old(self).player,
                forall|k: int|
                    0 <= k < self.characters@.len() ==> (#[trigger] self.characters@[k]).position == old(self).characters@[k].position,
                forall|k: int|
                    0 <= k < j ==> ((#[trigger] self.characters@[k]).state is Run ==> self.characters@[k].position.y >= self.tsunami_position + 1_000),
                forall|k: int|
                    j <= k < self.characters@.len() ==> (#[trigger] self.characters@[k]).state == old(self).characters@[k].state,
                old(self).player.state is Run ==> (self.player.state is Run || self.player.state is Fall),
                (old(self).player.state is Run && self.player.state is Fall) ==> (exists|k: int|
                    0 <= k < j && !((#[trigger] self.characters@[k]).state is Run) && self.characters@[k].position.y == self.player.position.y + 2 * PLAYER_SIZE && mag(
                        self.player.position.x - self.characters@[k].position.x,
                    ) < 2 * PLAYER_SIZE),
                self.player.position.x == old(self).player.position.x || (exists|k: int|
                    0 <= k < j && mag(
                        self.player.position.x - (#[trigger] self.characters@[k]).position.x,
                    ) == 2 * PLAYER_SIZE),
                (old(self).player.state is Run && !(self.player.state is Run)) ==> self.player.velocity == (Vec2 { x: 0, y: 0 }) && self.player.animation_position == 0,
                forall|k: int|
                    0 <= k < self.characters@.len() ==> wave_pass_npc(
                        old(self).characters@[k],
                        #[trigger] self.characters@[k],
                    ),
                player_clear_of_runners(old(self).player, old(self).characters@) ==> self.player
                    == old(self).player,
            decreases self.characters@.len() - j,
        {
            let ghost chars_entry: Seq<Character> = self.characters@;
            let ghost player_entry: Character = self.player;
            if self.characters[j].position.y < self.tsunami_position + 1000 {
                if self.rng.chance(1, 2) {
                    self.characters[j].fall();
                } else {
                    self.characters[j].fall_side();
                }
            }
            let pos: Vec2 = self.characters[j].position;
            let ghost player_before: Character = self.player;
            let hit: bool = self.player.check_hit(pos, PLAYER_SIZE);
            if hit {
                self.player.fall();
                self.characters[j].fall_side();
            }
            proof {
                if hit {
                    assert(self.characters@[j as int].position == pos);
                    assert(!(self.characters@[j as int].state is Run));
                    assert(self.characters@[j as int].position.y == self.player.position.y + 2
                        * PLAYER_SIZE);
                    assert(mag(self.player.position.x - self.characters@[j as int].position.x) < 2
                        * PLAYER_SIZE);
                }
                if !hit && self.player.position.x != player_before.position.x {
                    assert(self.characters@[j as int].position == pos);
                    assert(mag(self.player.position.x - pos.x) == 2 * PLAYER_SIZE);
                }
                if old(self).player.state is Run && !(player_entry.state is Run) {
                    let k0 = choose|k: int|
                        0 <= k < j && !(chars_entry[k].state is Run) && chars_entry[k].position.y
                            == player_entry.position.y + 2 * PLAYER_SIZE && mag(
                            player_entry.position.x - chars_entry[k].position.x,
                        ) < 2 * PLAYER_SIZE;
                    assert(self.characters@[k0] == chars_entry[k0]);
                    assert(self.player == player_entry);
                }
                if player_entry.position.x != old(self).player.position.x && self.player.position.x
                    == player_entry.position.x {
                    let k1 = choose|k: int|
                        0 <= k < j && mag(
                            player_entry.position.x - chars_entry[k].position.x,
                        ) == 2 * PLAYER_SIZE;
                    assert(self.characters@[k1] == chars_entry[k1]);
                }
                assert(wave_pass_npc(
                    old(self).characters@[j as int],
                    self.characters@[j as int],
                ));
                if player_clear_of_runners(old(self).player, old(self).characters@) {
                    assert(mag(old(self).player.position.x - old(
                        self,
                    ).characters@[j as int].position.x) >= 2 * PLAYER_SIZE || mag(
                        old(self).player.position.y - old(self).characters@[j as int].position.y,
                    ) >= 2 * PLAYER_SIZE);
                    assert(self.player == old(self).player);
                }
            }
            j = j + 1;
        }
    }

    /// Integration of every computer-driven runner.
    fn integrate_npcs(&mut self, eff: i64)
        requires
            0 <= eff <= 1_000_000,
            forall|i: int|
                0 <= i < old(self).characters@.len() ==> mid_npc(
                    #[trigger] old(self).characters@[i],
                    DIST_CAP - 1_500_000,
                ),
        ensures
            final(self).assets == old(self).assets,
            final(self).camera == old(self).camera,
            final(self).player == old(self).player,
            final(self).tsunami_position == old(self).tsunami_position,
            final(self).next_house == old(self).next_house,
            final(self).next_obstacle == old(self).next_obstacle,
            final(self).houses == old(self).houses,
            final(self).obstacles == old(self).obstacles,
            final(self).game_speed == old(self).game_speed,
            final(self).time == old(self).time,
            final(self).pressed_location == old(self).pressed_location,
            final(self).tsunami_animation == old(self).tsunami_animation,
            final(self).pending_restart == old(self).pending_restart,
            final(self).characters@.len() == old(self).characters@.len(),
            forall|i: int|
                0 <= i < final(self).characters@.len() ==> stepped(
                    old(self).characters@[i],
                    #[trigger] final(self).characters@[i],
                    eff as int,
                ),
            forall|i: int|
                0 <= i < final(self).characters@.len() ==> mid_npc(
                    #[trigger] final(self).characters@[i],
                    DIST_CAP as int,
                ) && old(self).characters@[i].position.y <= final(self).characters@[i].position.y
                    <= old(self).characters@[i].position.y + eff && final(self).characters@[i].position.x == old(self).characters@[i].position.x,
    {
        let mut j: usize = 0;
        while j < self.characters.len()
            invariant
                0 <= eff <= 1_000_000,
                self.assets == old(self).assets,
                self.camera == old(self).camera,
                self.player == old(self).player,
                self.tsunami_position == old(self).tsunami_position,
                self.next_house == old(self).next_house,
                self.next_obstacle == old(self).next_obstacle,
                self.houses == old(self).houses,
                self.obstacles == old(self).obstacles,
                self.game_speed == old(self).game_speed,
                self.time == old(self).time,
                self.pressed_location == old(self).pressed_location,
                self.tsunami_animation == old(self).tsunami_animation,
                self.pending_restart == old(self).pending_restart,
                j <= self.characters@.len(),
                self.characters@.len() == old(self).characters@.len(),
                forall|k: int|
                    j <= k < self.characters@.len() ==> #[trigger] self.characters@[k] == old(self).characters@[k],
                forall|k: int|
                    0 <= k < self.characters@.len() ==> mid_npc(
                        #[trigger] old(self).characters@[k],
                        DIST_CAP - 1_500_000,
                    ),
                forall|k: int|
                    0 <= k < j ==> stepped(
                        old(self).characters@[k],
                        #[trigger] self.characters@[k],
                        eff as int,
                    ),
                forall|k: int|
                    0 <= k < j ==> mid_npc(#[trigger] self.characters@[k], DIST_CAP as int) && old(self).characters@[k].position.y <= self.characters@[k].position.y <= old(self).characters@[k].position.y + eff && self.characters@[k].position.x == old(self).characters@[k].position.x,
            decreases self.characters@.len() - j,
        {
            proof {
                let c = self.characters@[j as int];
                lemma_milli_mul_nonneg(c.velocity.y as int, eff as int);
                lemma_milli_mul_bound(c.velocity.y as int, eff as int, 1000, eff as int);
                vstd::arithmetic::div_mod::lemma_div_multiples_vanish(eff as int, 1000);
                assert(milli_mul(0, eff as int) == 0) by {
                    vstd::arithmetic::div_mod::lemma_div_of0(1000);
                }
            }
            self.characters[j].update(eff);
            j = j + 1;
        }
    }

    /// One frame of the simulation, in order: clock and wave-sprite phase;
    /// difficulty ramp (or pre-roll creep); input steering, player
    /// integration and road clamping; the collision, wave-proximity and
    /// contact passes; hazard advance; camera follow; world streaming; the
    /// eviction filter; and the other runners' integration. Once the wave
    /// has won, the gameplay passes are skipped and only bookkeeping (wave,
    /// streaming, eviction, runner animation) continues, so the game-over
    /// state is permanent.
    #[verifier::rlimit(100)]
    #[verifier::spinoff_prover]
    pub fn update(&mut self, delta_time: i64, input: &Input)
        requires
            old(self).wf(),
            0 <= delta_time <= FRAME_DT_CAP,
            mag(old(self).player.position.y as int) <= PLAY_CAP,
            mag(old(self).tsunami_position as int) <= PLAY_CAP,
            old(self).game_speed <= SPEED_CAP - 50,
            (old(self).time matches Some(t) ==> t <= 1_000_000_000_000),
            1 <= input.window_width <= 1_000_000,
            1 <= input.window_height <= 1_000_000,
        ensures
            final(self).wf(),
            final(self).assets == old(self).assets,
            final(self).pending_restart == old(self).pending_restart,
            // bookkeeping: clock, wave-sprite phase, ramp, hazard advance
            final(self).time == old(self).clock_after(delta_time as int),
            final(self).tsunami_animation == (old(self).tsunami_animation + milli_mul(
                6000,
                old(self).raw_dt(delta_time as int),
            )) % 1000,
            final(self).game_speed == old(self).next_speed(delta_time as int),
            final(self).tsunami_position == old(self).tsunami_position + old(self).effective_dt(
                delta_time as int,
            ),
            old(self).tsunami_position <= final(self).tsunami_position,
            // the camera follows the player
            final(self).camera.near_distance == final(self).player.position.y + LOOKAHEAD,
            final(self).camera.far_distance == final(self).player.position.y - VISIBLE_BEHIND,
            // game over is permanent and freezes the player
            old(self).game_finished_spec() ==> final(self).player == old(self).player,
            old(self).game_finished_spec() ==> final(self).game_finished_spec(),
            // fallen states are terminal
            !(old(self).player.state is Run) ==> {
                &&& final(self).player.state == old(self).player.state
                &&& final(self).player.velocity == old(self).player.velocity
                &&& final(self).player.position.y == old(self).player.position.y
            },
            // a knockdown zeroes the velocity and restarts the animation
            (!old(self).game_finished_spec() && old(self).player.state is Run && !(final(self).player.state is Run)) ==> final(self).player.velocity == (Vec2 { x: 0, y: 0 })
                && final(self).player.animation_position == 0,
            // a sideways knockdown names the car hit head-on; a forward one
            // names the knocked-down runner the player ran into
            (!old(self).game_finished_spec() && old(self).player.state is Run && final(self).player.state is FallSide) ==> (exists|j: int|
                0 <= j < final(self).obstacles@.len() && (#[trigger] final(self).obstacles@[j]).position.y == final(self).player.position.y + PLAYER_SIZE + OBSTACLE_SIZE && mag(
                    final(self).player.position.x - final(self).obstacles@[j].position.x,
                ) < PLAYER_SIZE + OBSTACLE_SIZE),
            (!old(self).game_finished_spec() && old(self).player.state is Run && final(self).player.state is Fall) ==> (exists|j: int|
                0 <= j < final(self).characters@.len() && !((#[trigger] final(self).characters@[j]).state is Run) && final(self).characters@[j].position.y == final(self).player.position.y + 2 * PLAYER_SIZE && mag(
                    final(self).player.position.x - final(self).characters@[j].position.x,
                ) < 2 * PLAYER_SIZE),
            // the wave sweeps: a runner still on its feet is ahead of where
            // the wave stood, unless it was spawned ahead of the cursor
            !old(self).game_finished_spec() ==> (forall|i: int|
                0 <= i < final(self).characters@.len() ==> ((#[trigger] final(self).characters@[i]).state is Run ==> final(self).characters@[i].position.y >= old(self).tsunami_position + 1_000 || final(self).characters@[i].position.y >= old(self).next_obstacle)),
            // the lateral envelope: the clamp plus at most one push beyond it
            !old(self).game_finished_spec() ==> mag(final(self).player.position.x as int) <= 800,
            // nothing advances before the first input: the wave, its phase
            // and the difficulty ramp hold still
            old(self).time is None ==> final(self).tsunami_position == old(self).tsunami_position
                && final(self).tsunami_animation == old(self).tsunami_animation
                && final(self).game_speed == old(self).game_speed,
            // before the first input a player standing clear of the world
            // holds completely still too; only the road clamp applies
            (old(self).time is None && !old(self).game_finished_spec() && old(self).player.state
                is Run && old(self).lane_clear_at(old(self).player.position.y as int)) ==> {
                &&& final(self).player.state is Run
                &&& final(self).player.velocity == old(self).player.velocity
                &&& final(self).player.position.y == old(self).player.position.y
                &&& final(self).player.position.x == clamped(
                    old(self).player.position.x as int,
                    -400,
                    400,
                )
                &&& final(self).player.animation_position == old(self).player.animation_position
            },
            // a fallen player only animates: the pose is immune to every
            // pass, so its lateral clamp and phase advance are exact
            (!old(self).game_finished_spec() && !(old(self).player.state is Run)) ==> {
                &&& final(self).player.position.x == clamped(
                    old(self).player.position.x as int,
                    -400,
                    400,
                )
                &&& final(self).player.animation_position == (old(self).player.animation_position
                    + milli_mul(2000, old(self).effective_dt(delta_time as int))) % 1000
            },
            // whenever the player's integrated distance stands clear of
            // every car (with room for one contact push) and every runner,
            // no collision response can reach it and the whole player
            // pipeline — steering, integration, road clamp — is exact
            (!old(self).game_finished_spec() && old(self).player.state is Run) ==> ({
                let eff = old(self).effective_dt(delta_time as int);
                let vx = if old(self).tsunami_position > CREEP_UNTIL {
                    old(self).steered_x(*input)
                } else {
                    old(self).player.velocity.x as int
                };
                let vy = if old(self).tsunami_position > CREEP_UNTIL {
                    old(self).player.velocity.y + clamped(
                        1000 - old(self).player.velocity.y,
                        -milli_mul(5000, eff),
                        milli_mul(5000, eff),
                    )
                } else {
                    old(self).player.velocity.y as int
                };
                old(self).lane_clear_at(old(self).player.position.y + milli_mul(vy, eff)) ==> {
                    &&& final(self).player.state is Run
                    &&& final(self).player.velocity.x == vx
                    &&& final(self).player.velocity.y == vy
                    &&& final(self).player.position.x == clamped(
                        old(self).player.position.x + milli_mul(vx, eff),
                        -400,
                        400,
                    )
                    &&& final(self).player.position.y == old(self).player.position.y + milli_mul(
                        vy,
                        eff,
                    )
                }
            }),
            // a runner still on its feet went through the frame unknocked:
            // it was freshly spawned at or past the obstacle cursor, or it
            // descends from a runner that was already running and kept its
            // velocity through every pass
            forall|i: int|
                0 <= i < final(self).characters@.len() ==> ((
                #[trigger] final(self).characters@[i]).state is Run ==> (
                final(self).characters@[i].position.y >= old(self).next_obstacle || exists|j: int|
                    0 <= j < old(self).characters@.len()
                        && (#[trigger] old(self).characters@[j]).state is Run
                        && old(self).characters@[j].velocity
                        == final(self).characters@[i].velocity)),
            // every surviving entity sits in the visible window
            forall|i: int|
                0 <= i < final(self).houses@.len() ==> final(self).decor_in_window(
                    #[trigger] final(self).houses@[i],
                ),
            forall|i: int|
                0 <= i < final(self).obstacles@.len() ==> final(self).decor_in_window(
                    #[trigger] final(self).obstacles@[i],
                ),
            forall|i: int|
                0 <= i < final(self).characters@.len() ==> final(self).camera.far_distance <= (
                #[trigger] final(self).characters@[i]).position.y <= final(self).plane() + old(self).effective_dt(delta_time as int),
            // the world is populated up to the horizon
            final(self).next_house >= final(self).plane(),
            final(self).next_obstacle >= final(self).plane(),
            mag(final(self).player.position.y as int) <= PLAY_CAP + 2_000_000,
            (final(self).time matches Some(t) ==> t <= 1_000_000_000_001_000),
    {
        proof {
            lemma_effective_dt_bounds(*old(self), delta_time as int);
        }
        let mut dt: i64 = delta_time;
        match self.time {
            None => {
                dt = 0;
            },
            Some(t) => {
                if self.tsunami_position < self.camera.near_distance + self.camera.camera_near {
                    self.time = Some(t + dt);
                }
            },
        }
        proof {
            lemma_milli_mul_nonneg(6000, dt as int);
            lemma_product_cap(6000, dt as int, 6000, 1_000);
            lemma_milli_mul_bound(6000, dt as int, 6000, 1_000);
        }
        let anim_inc: i64 = milli_product(6000, dt);
        self.tsunami_animation = wrap_cycle(self.tsunami_animation + anim_inc);
        if self.tsunami_position < CREEP_UNTIL {
            proof {
                lemma_product_cap(dt as int, -(self.tsunami_position as int), 1_000, 500_000);
            }
            dt = milli_product(dt, -self.tsunami_position);
        } else if self.player.state == State::Run {
            self.game_speed = self.game_speed + dt / 20;
        } else {
            self.game_speed = SPEED_FALLEN;
        }
        proof {
            assert(dt == old(self).creep_dt(delta_time as int));
            assert(self.game_speed == old(self).next_speed(delta_time as int));
            lemma_product_cap(dt as int, self.game_speed as int, 500_000, SPEED_CAP as int);
        }
        let eff: i64 = milli_product(dt, self.game_speed);
        proof {
            assert(eff == old(self).effective_dt(delta_time as int));
        }
        let finished: bool = self.game_finished();
        let ghost mut player_steered: Character = self.player;
        let ghost mut player_int: Character = self.player;
        let ghost mut chars_mid: Seq<Character> = self.characters@;
        if !finished {
            if self.player.state == State::Run && self.tsunami_position > CREEP_UNTIL {
                self.apply_input(input, eff);
            }
            proof {
                player_steered = self.player;
            }
            self.player.update(eff);
            let lim: i64 = self.camera.road_ratio - PLAYER_SIZE;
            self.player.position.x = clamp_magnitude(self.player.position.x, lim);
            proof {
                player_int = self.player;
            }
            self.obstacle_hits(Ghost(PLAY_CAP + 1_100_000));
            proof {
                chars_mid = self.characters@;
            }
            self.npc_wave_and_contact(Ghost(PLAY_CAP + 1_100_600));
        }
        let ghost chars_after_passes: Seq<Character> = self.characters@;
        let ghost player_after_passes: Character = self.player;
        self.tsunami_position = self.tsunami_position + eff;
        self.camera.look_at(self.player.position.y);
        self.spawn_houses();
        self.spawn_obstacles();
        let ghost pre_filter_houses = self.houses@;
        let ghost pre_filter_obstacles = self.obstacles@;
        let ghost pre_filter_chars = self.characters@;
        let far: i64 = self.camera.far_distance;
        let plane: i64 = self.camera.near_distance + self.camera.camera_near;
        retain_window_decor(&mut self.houses, far, plane);
        retain_window_decor(&mut self.obstacles, far, plane);
        retain_window_chars(&mut self.characters, far, plane);
        let ghost filtered_chars: Seq<Character> = self.characters@;
        proof {
            broadcast use vstd::seq_lib::group_filter_ensures;

            assert forall|i: int| 0 <= i < self.houses@.len() implies (far
                <= (#[trigger] self.houses@[i]).position.y <= plane && pre_filter_houses.contains(
                self.houses@[i],
            )) by {
            }
            assert forall|i: int| 0 <= i < self.obstacles@.len() implies (far
                <= (#[trigger] self.obstacles@[i]).position.y <= plane
                && pre_filter_obstacles.contains(self.obstacles@[i])) by {
            }
            assert forall|i: int| 0 <= i < self.characters@.len() implies (far
                <= (#[trigger] self.characters@[i]).position.y <= plane
                && pre_filter_chars.contains(self.characters@[i])) by {
            }
            assert forall|i: int| 0 <= i < self.characters@.len() implies mid_npc(
                #[trigger] self.characters@[i],
                DIST_CAP - 1_500_000,
            ) by {
                let c = self.characters@[i];
                let j = choose|j: int|
                    0 <= j < pre_filter_chars.len() && pre_filter_chars[j] == c;
            }
        }
        self.integrate_npcs(eff);
        proof {
            broadcast use vstd::seq_lib::group_filter_ensures;

            if old(self).time is None {
                vstd::arithmetic::div_mod::lemma_div_of0(1000);
                assert(old(self).raw_dt(delta_time as int) == 0);
                assert(old(self).creep_dt(delta_time as int) == 0);
                assert(old(self).effective_dt(delta_time as int) == 0);
                assert(milli_mul(6000, 0) == 0);
                vstd::arithmetic::div_mod::lemma_small_mod(
                    old(self).tsunami_animation as nat,
                    1000,
                );
            }
            if !old(self).game_finished_spec() {
                assert(self.player == player_after_passes);
                // a fallen player is immune to every pass: only the road
                // clamp and the phase advance act on it
                if !(old(self).player.state is Run) {
                    assert(player_int.position.x == clamped(
                        old(self).player.position.x as int,
                        -400,
                        400,
                    ));
                    assert(player_after_passes == player_int);
                }
                // the exact player pipeline under a clear lane
                if old(self).player.state is Run {
                    let eff_s = old(self).effective_dt(delta_time as int);
                    let vy_s = if old(self).tsunami_position > CREEP_UNTIL {
                        old(self).player.velocity.y + clamped(
                            1000 - old(self).player.velocity.y,
                            -milli_mul(5000, eff_s),
                            milli_mul(5000, eff_s),
                        )
                    } else {
                        old(self).player.velocity.y as int
                    };
                    let y_int = old(self).player.position.y + milli_mul(vy_s, eff_s);
                    if old(self).time is None {
                        vstd::arithmetic::div_mod::lemma_div_of0(1000);
                        assert(eff_s == 0);
                        assert(milli_mul(vy_s, 0) == 0);
                        assert(y_int == old(self).player.position.y as int);
                    }
                    if old(self).lane_clear_at(y_int) {
                        assert(player_int.position.y == y_int);
                        lemma_lane_clear_shields(*old(self), player_int, chars_mid, y_int);
                        assert(player_after_passes == player_int);
                        // before the first input the step is zero: the
                        // pipeline reduces to the bare road clamp
                        if old(self).time is None {
                            assert(milli_mul(old(self).player.velocity.x as int, 0) == 0);
                            assert(player_steered == old(self).player);
                            assert(player_steered.phase_step(0) == 0) by {
                                vstd::arithmetic::div_mod::lemma_div_of0(1000);
                                assert(milli_mul(3000, 0) == 0);
                                assert(0 * player_steered.speed() == 0) by (nonlinear_arith);
                                assert(milli_mul(0, player_steered.speed()) == 0);
                            }
                            vstd::arithmetic::div_mod::lemma_small_mod(
                                old(self).player.animation_position as nat,
                                1000,
                            );
                        }
                    }
                }
                // the lateral envelope: a push lands next to what pushed
                if self.player.position.x != old(self).player.position.x {
                    if player_after_passes.position.x
                        != old(self).player.position.x && exists|k: int|
                        0 <= k < chars_after_passes.len() && mag(
                            player_after_passes.position.x - (
                            #[trigger] chars_after_passes[k]).position.x,
                        ) == 2 * PLAYER_SIZE {
                        let kx = choose|k: int|
                            0 <= k < chars_after_passes.len() && mag(
                                player_after_passes.position.x
                                    - chars_after_passes[k].position.x,
                            ) == 2 * PLAYER_SIZE;
                        assert(mag(chars_after_passes[kx].position.x as int) <= 600);
                    }
                }
                // sweep: every runner still on its feet is ahead of where the
                // wave stood, or was spawned ahead of the obstacle cursor
                assert forall|i: int|
                    0 <= i < self.characters@.len() && (#[trigger] self.characters@[i]).state
                        is Run implies (self.characters@[i].position.y >= old(self).tsunami_position + 1_000 || self.characters@[i].position.y >= old(self).next_obstacle) by {
                    let c = filtered_chars[i];
                    assert(pre_filter_chars.contains(c));
                    let jj = choose|jj: int|
                        0 <= jj < pre_filter_chars.len() && pre_filter_chars[jj] == c;
                    if jj < chars_after_passes.len() {
                        assert(pre_filter_chars[jj] == chars_after_passes[jj]);
                    }
                }
                // a sideways knockdown names the car that caused it
                if old(self).player.state is Run && self.player.state is FallSide {
                    let j0 = choose|j: int|
                        0 <= j < old(self).obstacles@.len() && old(self).obstacles@[j].position.y
                            == player_after_passes.position.y + PLAYER_SIZE + OBSTACLE_SIZE && mag(
                            player_after_passes.position.x - old(self).obstacles@[j].position.x,
                        ) < PLAYER_SIZE + OBSTACLE_SIZE;
                    assert(pre_filter_obstacles[j0] == old(self).obstacles@[j0]);
                    assert(far <= pre_filter_obstacles[j0].position.y <= plane);
                    assert(self.obstacles@.contains(pre_filter_obstacles[j0]));
                    let jf = choose|jf: int|
                        0 <= jf < self.obstacles@.len() && self.obstacles@[jf]
                            == pre_filter_obstacles[j0];
                    assert(self.obstacles@[jf].position.y == self.player.position.y + PLAYER_SIZE
                        + OBSTACLE_SIZE);
                }
                // a forward knockdown names the knocked-down runner it hit
                if old(self).player.state is Run && self.player.state is Fall {
                    let j1 = choose|j: int|
                        0 <= j < chars_after_passes.len() && !((
                        #[trigger] chars_after_passes[j]).state is Run)
                            && chars_after_passes[j].position.y == player_after_passes.position.y
                            + 2 * PLAYER_SIZE && mag(
                            player_after_passes.position.x - chars_after_passes[j].position.x,
                        ) < 2 * PLAYER_SIZE;
                    assert(pre_filter_chars[j1] == chars_after_passes[j1]);
                    assert(far <= pre_filter_chars[j1].position.y <= plane);
                    assert(filtered_chars.contains(pre_filter_chars[j1]));
                    let jf = choose|jf: int|
                        0 <= jf < filtered_chars.len() && filtered_chars[jf]
                            == pre_filter_chars[j1];
                    assert(!(self.characters@[jf].state is Run));
                    assert(self.characters@[jf].position == filtered_chars[jf].position);
                }
            }
            // a runner still on its feet went through the frame unknocked
            lemma_runner_survivors(
                old(self).characters@,
                old(self).obstacles@,
                chars_mid,
                chars_after_passes,
                pre_filter_chars,
                filtered_chars,
                self.characters@,
                eff as int,
                old(self).next_obstacle as int,
                old(self).game_finished_spec(),
            );
        }
    }
}

pub proof fn lemma_effective_dt_bounds(s: GameState, dt: int)
    requires
        s.wf(),
        0 <= dt <= FRAME_DT_CAP,
        s.game_speed <= SPEED_CAP - 50,
    ensures
        0 <= s.raw_dt(dt) <= dt,
        0 <= s.creep_dt(dt) <= 500_000,
        SPEED_START <= s.next_speed(dt) <= SPEED_CAP,
        0 <= s.effective_dt(dt) <= 1_000_000,
{
    let raw = s.raw_dt(dt);
    if s.tsunami_position < CREEP_UNTIL {
        lemma_milli_mul_nonneg(raw, -(s.tsunami_position as int));
        lemma_milli_mul_bound(raw, -(s.tsunami_position as int), 1_000, 500_000);
        assert(s.creep_dt(dt) <= 500_000);
        lemma_milli_mul_nonneg(s.creep_dt(dt), s.next_speed(dt));
        lemma_milli_mul_bound(s.creep_dt(dt), s.next_speed(dt), 500_000, 2_000);
    } else {
        vstd::arithmetic::div_mod::lemma_div_pos_is_pos(raw, 20);
        vstd::arithmetic::div_mod::lemma_div_is_ordered(raw, 1_000, 20);
        lemma_milli_mul_nonneg(s.creep_dt(dt), s.next_speed(dt));
        lemma_milli_mul_bound(s.creep_dt(dt), s.next_speed(dt), 1_000, SPEED_CAP as int);
    }
}

/// The car that a sideways knockdown names: the fallen runner sits pushed
/// back exactly onto the car's front boundary, still overlapping laterally.
spec fn knocked_on_car(c: Character, cars: Seq<Decor>) -> bool {
    exists|j: int|
        0 <= j < cars.len() && (#[trigger] cars[j]).position.y == c.position.y + PLAYER_SIZE
            + OBSTACLE_SIZE && mag(c.position.x - cars[j].position.x) < PLAYER_SIZE + OBSTACLE_SIZE
}

/// A forward distance that collision resolution against one of the cars can
/// leave a runner at: exactly one combined half-extent before or past it.
spec fn pushed_to_car_edge(y: int, cars: Seq<Decor>) -> bool {
    exists|j: int|
        0 <= j < cars.len() && ((#[trigger] cars[j]).position.y - (PLAYER_SIZE + OBSTACLE_SIZE) == y
            || cars[j].position.y + PLAYER_SIZE + OBSTACLE_SIZE == y)
}

/// How the car pass may leave one runner, relative to its start: a fallen
/// one is untouched; a running one either stays running with its gait intact
/// or is knocked sideways onto the front boundary of the car it hit; and its
/// forward distance moves only onto some car's boundary.
spec fn car_pass_npc(pre: Character, post: Character, cars: Seq<Decor>) -> bool {
    &&& (!(pre.state is Run) ==> post == pre)
    &&& (pre.state is Run ==> post.state is Run || post.state is FallSide)
    &&& (post.state is Run ==> post.velocity == pre.velocity && post.animation_position
        == pre.animation_position)
    &&& ((pre.state is Run && post.state is FallSide) ==> post.velocity == (Vec2 { x: 0, y: 0 })
        && post.animation_position == 0 && knocked_on_car(post, cars))
    &&& (post.position.y == pre.position.y || pushed_to_car_edge(post.position.y as int, cars))
}

/// How the wave-and-contact pass may leave one runner: it never moves, a
/// fallen one is untouched, and one still running afterwards was running
/// before, with its gait intact.
spec fn wave_pass_npc(pre: Character, post: Character) -> bool {
    &&& post.position == pre.position
    &&& (!(pre.state is Run) ==> post == pre)
    &&& (post.state is Run ==> pre.state is Run && post.velocity == pre.velocity
        && post.animation_position == pre.animation_position)
    &&& ((pre.state is Run && !(post.state is Run)) ==> post.velocity == (Vec2 { x: 0, y: 0 })
        && post.animation_position == 0)
}

/// The player overlaps no car: each pair is separated on some axis.
spec fn player_clear_of_cars(p: Character, cars: Seq<Decor>) -> bool {
    forall|j: int|
        0 <= j < cars.len() ==> mag(p.position.x - (#[trigger] cars[j]).position.x) >= PLAYER_SIZE
            + OBSTACLE_SIZE || mag(p.position.y - cars[j].position.y) >= PLAYER_SIZE + OBSTACLE_SIZE
}

/// The player overlaps no runner: each pair is separated on some axis.
spec fn player_clear_of_runners(p: Character, runners: Seq<Character>) -> bool {
    forall|j: int|
        0 <= j < runners.len() ==> mag(p.position.x - (#[trigger] runners[j]).position.x) >= 2
            * PLAYER_SIZE || mag(p.position.y - runners[j].position.y) >= 2 * PLAYER_SIZE
}

/// A player whose forward distance satisfies the lane clearance cannot be
/// touched by either collision pass: it stands clear of every car, and of
/// every runner even after the car pass has pushed runners onto car edges.
proof fn lemma_lane_clear_shields(s: GameState, p: Character, chars_mid: Seq<Character>, y: int)
    requires
        s.lane_clear_at(y),
        p.position.y == y,
        chars_mid.len() == s.characters@.len(),
        forall|k: int|
            0 <= k < chars_mid.len() ==> car_pass_npc(
                s.characters@[k],
                #[trigger] chars_mid[k],
                s.obstacles@,
            ),
    ensures
        player_clear_of_cars(p, s.obstacles@),
        player_clear_of_runners(p, chars_mid),
{
    assert forall|j: int| 0 <= j < s.obstacles@.len() implies mag(
        p.position.x - (#[trigger] s.obstacles@[j]).position.x,
    ) >= PLAYER_SIZE + OBSTACLE_SIZE || mag(p.position.y - s.obstacles@[j].position.y)
        >= PLAYER_SIZE + OBSTACLE_SIZE by {
        assert(mag(y - s.obstacles@[j].position.y) >= PLAYER_SIZE + OBSTACLE_SIZE + 2
            * PLAYER_SIZE);
    }
    assert forall|k: int| 0 <= k < chars_mid.len() implies mag(
        p.position.x - (#[trigger] chars_mid[k]).position.x,
    ) >= 2 * PLAYER_SIZE || mag(p.position.y - chars_mid[k].position.y) >= 2 * PLAYER_SIZE by {
        assert(car_pass_npc(s.characters@[k], chars_mid[k], s.obstacles@));
        if chars_mid[k].position.y != s.characters@[k].position.y {
            let jc = choose|j: int|
                0 <= j < s.obstacles@.len() && ((#[trigger] s.obstacles@[j]).position.y
                    - (PLAYER_SIZE + OBSTACLE_SIZE) == chars_mid[k].position.y as int
                    || s.obstacles@[j].position.y + PLAYER_SIZE + OBSTACLE_SIZE
                    == chars_mid[k].position.y as int);
            assert(mag(y - s.obstacles@[jc].position.y) >= PLAYER_SIZE + OBSTACLE_SIZE + 2
                * PLAYER_SIZE);
        } else {
            assert(mag(y - s.characters@[k].position.y) >= 2 * PLAYER_SIZE);
        }
    }
}

/// A character that comes out of both collision passes still running kept
/// its state and velocity through them.
proof fn lemma_unknocked_keeps_gait(
    pre: Character,
    mid: Character,
    post: Character,
    cars: Seq<Decor>,
)
    requires
        car_pass_npc(pre, mid, cars),
        wave_pass_npc(mid, post),
        post.state is Run,
    ensures
        pre.state is Run,
        pre.velocity == post.velocity,
{
}

/// Chases one frame's runner bookkeeping — the two collision passes, the
/// spawn append, the eviction filter and the integration — to show that a
/// runner still on its feet at the end of the frame was never knocked down:
/// it was freshly spawned at or past the obstacle cursor, or it descends
/// from one that was already running and kept its velocity.
proof fn lemma_runner_survivors(
    chars0: Seq<Character>,
    cars0: Seq<Decor>,
    chars_mid: Seq<Character>,
    chars_after: Seq<Character>,
    pre_filter: Seq<Character>,
    filtered: Seq<Character>,
    finals: Seq<Character>,
    eff: int,
    cursor: int,
    finished: bool,
)
    requires
        !finished ==> chars_mid.len() == chars0.len() && chars_after.len() == chars0.len(),
        !finished ==> forall|k: int|
            0 <= k < chars_mid.len() ==> car_pass_npc(chars0[k], #[trigger] chars_mid[k], cars0),
        !finished ==> forall|k: int|
            0 <= k < chars_after.len() ==> wave_pass_npc(chars_mid[k], #[trigger] chars_after[k]),
        finished ==> chars_after == chars0,
        chars_after.len() <= pre_filter.len(),
        forall|k: int| 0 <= k < chars_after.len() ==> #[trigger] pre_filter[k] == chars_after[k],
        forall|k: int|
            chars_after.len() <= k < pre_filter.len() ==> cursor <= (
            #[trigger] pre_filter[k]).position.y,
        forall|k: int| 0 <= k < filtered.len() ==> pre_filter.contains(#[trigger] filtered[k]),
        finals.len() == filtered.len(),
        forall|k: int|
            0 <= k < finals.len() ==> stepped(filtered[k], #[trigger] finals[k], eff)
                && filtered[k].position.y <= finals[k].position.y,
    ensures
        forall|i: int|
            0 <= i < finals.len() ==> ((#[trigger] finals[i]).state is Run ==> (
            finals[i].position.y >= cursor || exists|j: int|
                0 <= j < chars0.len() && (#[trigger] chars0[j]).state is Run && chars0[j].velocity
                    == finals[i].velocity)),
{
    assert forall|i: int| 0 <= i < finals.len() && (#[trigger] finals[i]).state is Run implies (
    finals[i].position.y >= cursor || exists|j: int|
        0 <= j < chars0.len() && (#[trigger] chars0[j]).state is Run && chars0[j].velocity
            == finals[i].velocity) by {
        let c = filtered[i];
        assert(stepped(filtered[i], finals[i], eff));
        assert(pre_filter.contains(c));
        let jj = choose|jj: int| 0 <= jj < pre_filter.len() && pre_filter[jj] == c;
        if jj < chars_after.len() {
            assert(pre_filter[jj] == chars_after[jj]);
            if !finished {
                assert(c.state is Run);
                lemma_unknocked_keeps_gait(chars0[jj], chars_mid[jj], chars_after[jj], cars0);
            } else {
                assert(chars_after[jj] == chars0[jj]);
            }
        } else {
            assert(cursor <= pre_filter[jj].position.y);
            assert(finals[i].position.y >= filtered[i].position.y);
        }
    }
}

/// A runner part-way through a frame: what the collision passes keep true
/// while positions are being pushed around, before eviction re-trims.
spec fn mid_npc(c: Character, cap: int) -> bool {
    &&& c.wf()
    &&& c.velocity.x == 0
    &&& 0 <= c.velocity.y
    &&& mag(c.position.x as int) <= 600
    &&& mag(c.position.y as int) <= cap
}

/// The player part-way through a frame.
spec fn mid_player(c: Character, cap: int) -> bool {
    &&& c.wf()
    &&& mag(c.position.x as int) <= 1_000
    &&& mag(c.position.y as int) <= cap
}

/// One integration step, described state-to-state.
spec fn stepped(pre: Character, post: Character, dt: int) -> bool {
    &&& post.state == pre.state
    &&& post.velocity == pre.velocity
    &&& (pre.state is Run ==> post.position.x == pre.position.x + milli_mul(
        pre.velocity.x as int,
        dt,
    ) && post.position.y == pre.position.y + milli_mul(pre.velocity.y as int, dt))
    &&& (!(pre.state is Run) ==> post.position == pre.position)
    &&& post.animation_position == (pre.animation_position + pre.phase_step(dt)) % 1000
}

/// Membership of the visible window, for the eviction filter.
spec fn decor_window_pred(far: int, plane: int) -> spec_fn(Decor) -> bool {
    |d: Decor| far <= d.position.y <= plane
}

spec fn char_window_pred(far: int, plane: int) -> spec_fn(Character) -> bool {
    |c: Character| far <= c.position.y <= plane
}

/// Eviction: keep exactly the entities whose distance lies in the window.
fn retain_window_decor(v: &mut Vec<Decor>, far: i64, plane: i64)
    ensures
        final(v)@ == old(v)@.filter(decor_window_pred(far as int, plane as int)),
        forall|k: int| 0 <= k < final(v)@.len() ==> old(v)@.contains(#[trigger] final(v)@[k]),
{
    let ghost pred = decor_window_pred(far as int, plane as int);
    let mut out: Vec<Decor> = Vec::new();
    let mut i: usize = 0;
    proof {
        reveal(Seq::filter);
        assert(old(v)@.take(0).filter(pred) =~= Seq::<Decor>::empty());
    }
    while i < v.len()
        invariant
            v@ == old(v)@,
            i <= v@.len(),
            pred == decor_window_pred(far as int, plane as int),
            out@ == v@.take(i as int).filter(pred),
            forall|k: int| 0 <= k < out@.len() ==> v@.contains(#[trigger] out@[k]),
        decreases v@.len() - i,
    {
        let d: Decor = v[i];
        proof {
            reveal(Seq::filter);
            assert(v@.take(i as int + 1).drop_last() =~= v@.take(i as int));
            assert(v@.take(i as int + 1).last() == d);
            assert(v@.contains(d)) by {
                assert(v@[i as int] == d);
            }
        }
        if far <= d.position.y && d.position.y <= plane {
            out.push(d);
        }
        i = i + 1;
    }
    proof {
        assert(v@.take(v@.len() as int) =~= v@);
    }
    *v = out;
}

/// Eviction for runners, by the same window rule.
fn retain_window_chars(v: &mut Vec<Character>, far: i64, plane: i64)
    ensures
        final(v)@ == old(v)@.filter(char_window_pred(far as int, plane as int)),
        forall|k: int| 0 <= k < final(v)@.len() ==> old(v)@.contains(#[trigger] final(v)@[k]),
{
    let ghost pred = char_window_pred(far as int, plane as int);
    let mut out: Vec<Character> = Vec::new();
    let mut i: usize = 0;
    proof {
        reveal(Seq::filter);
        assert(old(v)@.take(0).filter(pred) =~= Seq::<Character>::empty());
    }
    while i < v.len()
        invariant
            v@ == old(v)@,
            i <= v@.len(),
            pred == char_window_pred(far as int, plane as int),
            out@ == v@.take(i as int).filter(pred),
            forall|k: int| 0 <= k < out@.len() ==> v@.contains(#[trigger] out@[k]),
        decreases v@.len() - i,
    {
        let c: Character = v[i];
        proof {
            reveal(Seq::filter);
            assert(v@.take(i as int + 1).drop_last() =~= v@.take(i as int));
            assert(v@.take(i as int + 1).last() == c);
            assert(v@.contains(c)) by {
                assert(v@[i as int] == c);
            }
        }
        if far <= c.position.y && c.position.y <= plane {
            out.push(c);
        }
        i = i + 1;
    }
    proof {
        assert(v@.take(v@.len() as int) =~= v@);
    }
    *v = out;
}

/// A house as one scenery batch spawns it on the city band: the given side,
/// at the batch's cursor distance, wearing a city texture.
pub open spec fn city_house_ok(a: GameAssets, d: Decor, cursor: int, lane: int) -> bool {
    &&& d.position.x == lane
    &&& d.position.y == cursor
    &&& (d.texture matches TextureId::House(i) && i < a.houses.len())
}

/// A house as one scenery batch spawns it on the beach band: either side,
/// at the batch's cursor distance, wearing a beach texture.
pub open spec fn beach_house_ok(a: GameAssets, d: Decor, cursor: int) -> bool {
    &&& (d.position.x == HOUSE_LANE || d.position.x == -HOUSE_LANE)
    &&& d.position.y == cursor
    &&& (d.texture matches TextureId::BeachHouse(i) && i < a.beach_houses.len())
}

/// What the scenery catch-up loop appends between two cursor values: one
/// batch per step, a right-then-left pair of city houses past the beach, a
/// single beach house (on a random side) on it.
pub open spec fn house_batches_ok(a: GameAssets, rows: Seq<Decor>, cursor: int, edge: int) -> bool
    decreases edge - cursor + HOUSE_STEP,
{
    if cursor >= edge {
        rows.len() == 0
    } else if cursor > BEACH_END {
        &&& rows.len() >= 2
        &&& city_house_ok(a, rows[0], cursor, HOUSE_LANE as int)
        &&& city_house_ok(a, rows[1], cursor, -HOUSE_LANE as int)
        &&& house_batches_ok(a, rows.skip(2), cursor + HOUSE_STEP, edge)
    } else {
        &&& rows.len() >= 1
        &&& beach_house_ok(a, rows[0], cursor)
        &&& house_batches_ok(a, rows.skip(1), cursor + HOUSE_STEP, edge)
    }
}

/// Appending one more batch at the edge extends the batch description by one
/// step.
proof fn lemma_house_batches_extend(
    a: GameAssets,
    rows: Seq<Decor>,
    tail: Seq<Decor>,
    c0: int,
    cur: int,
)
    requires
        house_batches_ok(a, rows, c0, cur),
        c0 <= cur,
        (cur - c0) % (HOUSE_STEP as int) == 0,
        cur > BEACH_END ==> tail.len() == 2 && city_house_ok(a, tail[0], cur, HOUSE_LANE as int)
            && city_house_ok(a, tail[1], cur, -HOUSE_LANE as int),
        cur <= BEACH_END ==> tail.len() == 1 && beach_house_ok(a, tail[0], cur),
    ensures
        house_batches_ok(a, rows + tail, c0, cur + HOUSE_STEP),
    decreases cur - c0,
{
    if c0 >= cur {
        assert(rows.len() == 0);
        assert(rows + tail =~= tail);
        if cur > BEACH_END {
            assert((rows + tail).skip(2) =~= Seq::<Decor>::empty());
            assert(house_batches_ok(a, (rows + tail).skip(2), cur + HOUSE_STEP, cur + HOUSE_STEP));
        } else {
            assert((rows + tail).skip(1) =~= Seq::<Decor>::empty());
            assert(house_batches_ok(a, (rows + tail).skip(1), cur + HOUSE_STEP, cur + HOUSE_STEP));
        }
    } else {
        assert(cur - c0 >= HOUSE_STEP) by {
            vstd::arithmetic::div_mod::lemma_fundamental_div_mod(cur - c0, HOUSE_STEP as int);
            let q = (cur - c0) / (HOUSE_STEP as int);
            vstd::arithmetic::div_mod::lemma_div_pos_is_pos(cur - c0, HOUSE_STEP as int);
            assert(cur - c0 == (HOUSE_STEP as int) * q);
            assert(q >= 1) by (nonlinear_arith)
                requires
                    1000 * q > 0;
            assert((HOUSE_STEP as int) * q >= HOUSE_STEP) by (nonlinear_arith)
                requires
                    q >= 1;
        }
        assert(((cur - (c0 + HOUSE_STEP)) % (HOUSE_STEP as int)) == 0) by {
            vstd::arithmetic::div_mod::lemma_mod_sub_multiples_vanish(
                cur - c0,
                HOUSE_STEP as int,
            );
        }
        if c0 > BEACH_END {
            lemma_house_batches_extend(a, rows.skip(2), tail, c0 + HOUSE_STEP, cur);
            assert((rows + tail).skip(2) =~= rows.skip(2) + tail);
            assert(house_batches_ok(a, (rows + tail).skip(2), c0 + HOUSE_STEP, cur + HOUSE_STEP));
            assert((rows + tail)[0] == rows[0]);
            assert((rows + tail)[1] == rows[1]);
        } else {
            lemma_house_batches_extend(a, rows.skip(1), tail, c0 + HOUSE_STEP, cur);
            assert((rows + tail).skip(1) =~= rows.skip(1) + tail);
            assert(house_batches_ok(a, (rows + tail).skip(1), c0 + HOUSE_STEP, cur + HOUSE_STEP));
            assert((rows + tail)[0] == rows[0]);
        }
    }
}

/// A car as one obstacle batch parks it: just left or right of the road
/// centre, at the batch's cursor distance, wearing a car texture.
pub open spec fn spawned_car_ok(a: GameAssets, d: Decor, cursor: int) -> bool {
    &&& (d.position.x == OBSTACLE_LANE || d.position.x == -OBSTACLE_LANE)
    &&& d.position.y == cursor
    &&& (d.texture matches TextureId::Car(i) && i < a.cars.len())
}

/// A runner as one obstacle batch spawns it: running, fresh animation, a
/// random lane on the drivable road, a random forward speed in its band.
pub open spec fn spawned_runner_ok(c: Character, cursor: int) -> bool {
    &&& c.state is Run
    &&& c.animation_position == 0
    &&& -400 <= c.position.x <= 400
    &&& c.position.y == cursor
    &&& c.velocity.x == 0
    &&& 300 <= c.velocity.y < 700
}

/// What the obstacle catch-up loop appends between two cursor values: one
/// batch per step, each either a parked car or a spawned runner at exactly
/// the batch's cursor distance.
pub open spec fn obstacle_batches_ok(
    a: GameAssets,
    cars: Seq<Decor>,
    runners: Seq<Character>,
    cursor: int,
    edge: int,
) -> bool
    decreases edge - cursor + OBSTACLE_STEP,
{
    if cursor >= edge {
        cars.len() == 0 && runners.len() == 0
    } else {
        ||| (cars.len() >= 1 && spawned_car_ok(a, cars[0], cursor) && obstacle_batches_ok(
            a,
            cars.skip(1),
            runners,
            cursor + OBSTACLE_STEP,
            edge,
        ))
        ||| (runners.len() >= 1 && spawned_runner_ok(runners[0], cursor) && obstacle_batches_ok(
            a,
            cars,
            runners.skip(1),
            cursor + OBSTACLE_STEP,
            edge,
        ))
    }
}

/// Appending one more batch at the edge extends the batch description by one
/// step.
proof fn lemma_obstacle_batches_extend(
    a: GameAssets,
    cars: Seq<Decor>,
    runners: Seq<Character>,
    car_tail: Seq<Decor>,
    runner_tail: Seq<Character>,
    c0: int,
    cur: int,
)
    requires
        obstacle_batches_ok(a, cars, runners, c0, cur),
        c0 <= cur,
        (cur - c0) % (OBSTACLE_STEP as int) == 0,
        (car_tail.len() == 1 && runner_tail.len() == 0 && spawned_car_ok(a, car_tail[0], cur)) || (
        car_tail.len() == 0 && runner_tail.len() == 1 && spawned_runner_ok(runner_tail[0], cur)),
    ensures
        obstacle_batches_ok(a, cars + car_tail, runners + runner_tail, c0, cur + OBSTACLE_STEP),
    decreases cur - c0,
{
    if c0 >= cur {
        assert(cars.len() == 0 && runners.len() == 0);
        assert(cars + car_tail =~= car_tail);
        assert(runners + runner_tail =~= runner_tail);
        if car_tail.len() == 1 {
            assert((cars + car_tail).skip(1) =~= Seq::<Decor>::empty());
            assert(obstacle_batches_ok(
                a,
                (cars + car_tail).skip(1),
                runners + runner_tail,
                cur + OBSTACLE_STEP,
                cur + OBSTACLE_STEP,
            ));
        } else {
            assert((runners + runner_tail).skip(1) =~= Seq::<Character>::empty());
            assert(obstacle_batches_ok(
                a,
                cars + car_tail,
                (runners + runner_tail).skip(1),
                cur + OBSTACLE_STEP,
                cur + OBSTACLE_STEP,
            ));
        }
    } else {
        assert(cur - c0 >= OBSTACLE_STEP) by {
            vstd::arithmetic::div_mod::lemma_fundamental_div_mod(cur - c0, OBSTACLE_STEP as int);
            let q = (cur - c0) / (OBSTACLE_STEP as int);
            vstd::arithmetic::div_mod::lemma_div_pos_is_pos(cur - c0, OBSTACLE_STEP as int);
            assert(cur - c0 == (OBSTACLE_STEP as int) * q);
            assert(q >= 1) by (nonlinear_arith)
                requires
                    (OBSTACLE_STEP as int) * q > 0,
                    OBSTACLE_STEP == 2_000i64;
            assert((OBSTACLE_STEP as int) * q >= OBSTACLE_STEP) by (nonlinear_arith)
                requires
                    q >= 1;
        }
        assert(((cur - (c0 + OBSTACLE_STEP)) % (OBSTACLE_STEP as int)) == 0) by {
            vstd::arithmetic::div_mod::lemma_mod_sub_multiples_vanish(
                cur - c0,
                OBSTACLE_STEP as int,
            );
        }
        if cars.len() >= 1 && spawned_car_ok(a, cars[0], c0) && obstacle_batches_ok(
            a,
            cars.skip(1),
            runners,
            c0 + OBSTACLE_STEP,
            cur,
        ) {
            lemma_obstacle_batches_extend(
                a,
                cars.skip(1),
                runners,
                car_tail,
                runner_tail,
                c0 + OBSTACLE_STEP,
                cur,
            );
            assert((cars + car_tail).skip(1) =~= cars.skip(1) + car_tail);
            assert(obstacle_batches_ok(
                a,
                (cars + car_tail).skip(1),
                runners + runner_tail,
                c0 + OBSTACLE_STEP,
                cur + OBSTACLE_STEP,
            ));
            assert((cars + car_tail)[0] == cars[0]);
        } else {
            lemma_obstacle_batches_extend(
                a,
                cars,
                runners.skip(1),
                car_tail,
                runner_tail,
                c0 + OBSTACLE_STEP,
                cur,
            );
            assert((runners + runner_tail).skip(1) =~= runners.skip(1) + runner_tail);
            assert(obstacle_batches_ok(
                a,
                cars + car_tail,
                (runners + runner_tail).skip(1),
                c0 + OBSTACLE_STEP,
                cur + OBSTACLE_STEP,
            ));
            assert((runners + runner_tail)[0] == runners[0]);
        }
    }
}

/// How many batches a catch-up loop starting at `cursor` runs before the
/// cursor reaches `edge`, stepping by `step` each time.
pub open spec fn batches(cursor: int, edge: int, step: int) -> int
    decreases edge - cursor,
{
    if step <= 0 || cursor >= edge {
        0
    } else if cursor + step >= edge {
        1
    } else {
        1 + batches(cursor + step, edge, step)
    }
}

pub proof fn lemma_batches_unfold(cursor: int, edge: int, step: int)
    requires
        step > 0,
        cursor < edge,
    ensures
        batches(cursor, edge, step) == 1 + batches(cursor + step, edge, step),
        batches(cursor, edge, step) >= 1,
        batches(cursor + step, edge, step) >= 0,
    decreases edge - cursor,
{
    if cursor + step < edge {
        lemma_batches_unfold(cursor + step, edge, step);
    }
}

pub proof fn lemma_batches_done(cursor: int, edge: int, step: int)
    requires
        step > 0,
        cursor >= edge,
    ensures
        batches(cursor, edge, step) == 0,
{
}

} // verus!
