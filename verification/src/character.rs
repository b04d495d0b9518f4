//! The moving character — the player or a computer-driven runner — with its
//! three-state machine: Running (the only state that moves and can collide),
//! Falling and FallingSideways (terminal knocked-down poses). Transitions into
//! the fallen states are guarded so that redundant knockdowns from the
//! all-pairs collision pass are silently absorbed.

use vstd::prelude::*;
use crate::assets::{Animation, Assets, TextureInfo};
use crate::fixed::{
    floor_sqrt, lemma_milli_mul_bound, lemma_milli_mul_nonneg,
    lemma_product_cap, isqrt, mag, magnitude, milli_mul, milli_product, sign_of, wrap_cycle,
};
use crate::geometry::{DIST_CAP, Vec2, Vec3};
use crate::render::{Size, Sprite, TextureId};

verus! {

/// Half-extent of a character along both axes, in milli-units.
pub const PLAYER_SIZE: i64 = 100;

/// No character moves faster than one unit per second along an axis.
pub const VEL_CAP: i64 = 1_000;

/// Longest time step one integration accepts, in milli-seconds.
pub const DT_CAP: i64 = 1_000_000;

#[derive(Clone, Copy, PartialEq, Eq, Structural, Debug)]
pub enum State {
    Run,
    Fall,
    FallSide,
}

#[derive(Clone, Copy, PartialEq, Eq, Structural, Debug)]
pub struct Character {
    pub state: State,
    /// Phase of the active animation, in `[0, 1000)` milli-cycles.
    pub animation_position: i64,
    pub position: Vec2,
    pub velocity: Vec2,
}

impl Character {
    pub open spec fn wf(self) -> bool {
        &&& 0 <= self.animation_position < 1000
        &&& mag(self.velocity.x as int) <= VEL_CAP
        &&& mag(self.velocity.y as int) <= VEL_CAP
        &&& mag(self.position.x as int) <= DIST_CAP
        &&& mag(self.position.y as int) <= DIST_CAP
    }

    /// Speed as the magnitude of the velocity, in milli-units per second.
    pub open spec fn speed(self) -> int {
        floor_sqrt(
            self.velocity.x * self.velocity.x + self.velocity.y * self.velocity.y,
        )
    }

    /// How far the animation phase advances over one step: proportional to
    /// the running speed while running (a gait), at a fixed rate once fallen.
    pub open spec fn phase_step(self, dt: int) -> int {
        if self.state is Run {
            milli_mul(milli_mul(3000, dt), self.speed())
        } else {
            milli_mul(2000, dt)
        }
    }

    pub open spec fn after_fall(self) -> Character {
        if self.state is Run {
            Character {
                state: State::Fall,
                animation_position: 0,
                position: self.position,
                velocity: Vec2 { x: 0, y: 0 },
            }
        } else {
            self
        }
    }

    pub open spec fn after_fall_side(self) -> Character {
        if self.state is Run {
            Character {
                state: State::FallSide,
                animation_position: 0,
                position: self.position,
                velocity: Vec2 { x: 0, y: 0 },
            }
        } else {
            self
        }
    }

    pub fn new(position: Vec2) -> (c: Character)
        ensures
            c == (Character {
                state: State::Run,
                animation_position: 0,
                position,
                velocity: Vec2 { x: 0, y: 0 },
            }),
    {
        Character {
            state: State::Run,
            animation_position: 0,
            position,
            velocity: Vec2 { x: 0, y: 0 },
        }
    }

    /// One integration step. Only a running character moves; the animation
    /// phase accumulates in every state and wraps modulo one cycle, so it
    /// always lands back in `[0, 1000)`.
    pub fn update(&mut self, delta_time: i64)
        requires
            old(self).wf(),
            0 <= delta_time <= DT_CAP,
            mag(old(self).position.x as int) <= DIST_CAP - 1_000_000,
            mag(old(self).position.y as int) <= DIST_CAP - 1_000_000,
        ensures
            final(self).state == old(self).state,
            final(self).velocity == old(self).velocity,
            final(self).wf(),
            old(self).state is Run ==> {
                &&& final(self).position.x == old(self).position.x + milli_mul(
                    old(self).velocity.x as int,
                    delta_time as int,
                )
                &&& final(self).position.y == old(self).position.y + milli_mul(
                    old(self).velocity.y as int,
                    delta_time as int,
                )
            },
            !(old(self).state is Run) ==> final(self).position == old(self).position,
            final(self).animation_position == (old(self).animation_position + old(
                self,
            ).phase_step(delta_time as int)) % 1000,
            mag(final(self).position.x - old(self).position.x) <= delta_time,
            mag(final(self).position.y - old(self).position.y) <= delta_time,
    {
        match self.state {
            State::Run => {
                proof {
                    lemma_product_cap(
                        self.velocity.x as int,
                        delta_time as int,
                        VEL_CAP as int,
                        DT_CAP as int,
                    );
                    lemma_milli_mul_bound(
                        self.velocity.x as int,
                        delta_time as int,
                        VEL_CAP as int,
                        delta_time as int,
                    );
                    lemma_product_cap(
                        self.velocity.y as int,
                        delta_time as int,
                        VEL_CAP as int,
                        DT_CAP as int,
                    );
                    lemma_milli_mul_bound(
                        self.velocity.y as int,
                        delta_time as int,
                        VEL_CAP as int,
                        delta_time as int,
                    );
                    lemma_product_cap(self.velocity.x as int, self.velocity.x as int, 1000, 1000);
                    lemma_product_cap(self.velocity.y as int, self.velocity.y as int, 1000, 1000);
                }
                let dx: i64 = milli_product(self.velocity.x, delta_time);
                let dy: i64 = milli_product(self.velocity.y, delta_time);
                self.position.x = self.position.x + dx;
                self.position.y = self.position.y + dy;
                proof {
                    assert(self.velocity.x * self.velocity.x >= 0) by (nonlinear_arith);
                    assert(self.velocity.y * self.velocity.y >= 0) by (nonlinear_arith);
                }
                let sq: i64 = self.velocity.x * self.velocity.x + self.velocity.y
                    * self.velocity.y;
                let speed: i64 = isqrt(sq as u64) as i64;
                proof {
                    assert(speed <= 1414) by (nonlinear_arith)
                        requires
                            0 <= speed,
                            speed * speed <= 2_000_000;
                    lemma_milli_mul_nonneg(3000, delta_time as int);
                    lemma_milli_mul_bound(3000, delta_time as int, 3000, DT_CAP as int);
                }
                let step: i64 = milli_product(3000, delta_time);
                proof {
                    lemma_product_cap(step as int, speed as int, 3_000_000, 1414);
                    lemma_milli_mul_nonneg(step as int, speed as int);
                    lemma_milli_mul_bound(step as int, speed as int, 3_000_000, 1414);
                }
                let inc: i64 = milli_product(step, speed);
                self.animation_position = wrap_cycle(self.animation_position + inc);
            },
            _ => {
                proof {
                    lemma_product_cap(2000, delta_time as int, 2000, DT_CAP as int);
                    lemma_milli_mul_nonneg(2000, delta_time as int);
                    lemma_milli_mul_bound(2000, delta_time as int, 2000, DT_CAP as int);
                }
                let inc: i64 = milli_product(2000, delta_time);
                self.animation_position = wrap_cycle(self.animation_position + inc);
            },
        }
    }

    /// Axis-aligned proximity test against a point obstacle with combined
    /// half-extent `PLAYER_SIZE + obstacle_size`. On overlap the character is
    /// pushed out along the axis of deeper separation, to the boundary; being
    /// pushed backward along the forward axis is the front hit that the
    /// caller answers with a knockdown. A character that is not running is
    /// immune: nothing moves and no hit is reported.
    ///
    /// Resolution never increases penetration: afterwards, the larger of the
    /// two re-measured separations is always at or beyond the combined size.
    pub fn check_hit(&mut self, obstacle_position: Vec2, obstacle_size: i64) -> (hit: bool)
        requires
            old(self).wf(),
            0 <= obstacle_size <= 10_000,
            mag(obstacle_position.x as int) <= DIST_CAP - 20_000,
            mag(obstacle_position.y as int) <= DIST_CAP - 20_000,
        ensures
            final(self).state == old(self).state,
            final(self).velocity == old(self).velocity,
            final(self).animation_position == old(self).animation_position,
            final(self).wf(),
            !(old(self).state is Run) ==> *final(self) == *old(self) && !hit,
            old(self).state is Run ==> ({
                let dx = old(self).position.x - obstacle_position.x;
                let dy = old(self).position.y - obstacle_position.y;
                let size = PLAYER_SIZE + obstacle_size;
                if mag(dx) < size && mag(dy) < size {
                    if mag(dx) > mag(dy) {
                        &&& final(self).position.x == obstacle_position.x + sign_of(dx) * size
                        &&& final(self).position.y == old(self).position.y
                        &&& !hit
                    } else {
                        &&& final(self).position.y == obstacle_position.y + sign_of(dy) * size
                        &&& final(self).position.x == old(self).position.x
                        &&& hit == (dy < 0)
                    }
                } else {
                    final(self).position == old(self).position && !hit
                }
            }),
            old(self).state is Run ==> mag(
                final(self).position.x - obstacle_position.x,
            ) >= PLAYER_SIZE + obstacle_size || mag(
                final(self).position.y - obstacle_position.y,
            ) >= PLAYER_SIZE + obstacle_size,
    {
        if self.state != State::Run {
            return false;
        }
        let dx: i64 = self.position.x - obstacle_position.x;
        let dy: i64 = self.position.y - obstacle_position.y;
        let size: i64 = PLAYER_SIZE + obstacle_size;
        if magnitude(dx) < size && magnitude(dy) < size {
            if magnitude(dx) > magnitude(dy) {
                self.position.x = obstacle_position.x + (if dx >= 0 { size } else { -size });
            } else {
                self.position.y = obstacle_position.y + (if dy >= 0 { size } else { -size });
                if self.position.y < obstacle_position.y {
                    return true;
                }
            }
        }
        false
    }

    /// Knock the character down forward. Only a running character falls:
    /// the velocity is zeroed, the animation restarts, and the state becomes
    /// terminal. Otherwise this is a no-op.
    pub fn fall(&mut self)
        ensures
            *final(self) == old(self).after_fall(),
            old(self).wf() ==> final(self).wf(),
    {
        if self.state != State::Run {
            return;
        }
        self.velocity = Vec2 { x: 0, y: 0 };
        self.animation_position = 0;
        self.state = State::Fall;
    }

    /// Knock the character down sideways; the same guard and side effects as
    /// `fall`, with the sideways-collapse pose.
    pub fn fall_side(&mut self)
        ensures
            *final(self) == old(self).after_fall_side(),
            old(self).wf() ==> final(self).wf(),
    {
        if self.state != State::Run {
            return;
        }
        self.velocity = Vec2 { x: 0, y: 0 };
        self.animation_position = 0;
        self.state = State::FallSide;
    }

    /// The animation that the current state selects.
    pub open spec fn active_animation(self, assets: Assets) -> Animation {
        match self.state {
            State::Run => assets.run,
            State::Fall => assets.fall,
            State::FallSide => assets.fall_side,
        }
    }

    /// Frame picked by the phase: `floor(phase * frame_count)`, clamped to
    /// the last frame.
    pub open spec fn frame_index(self, assets: Assets) -> int {
        let n = self.active_animation(assets).frames@.len() as int;
        let raw = self.animation_position * n / 1000;
        if raw >= n {
            n - 1
        } else {
            raw
        }
    }

    /// The sprite for the current pose, as one value.
    pub open spec fn sprite_spec(self, assets: Assets) -> Sprite {
        let anim = self.active_animation(assets);
        let idx = self.frame_index(assets);
        Sprite {
            texture: TextureId::CharacterFrame { state: self.state, frame: idx as usize },
            tex_info: anim.frames@[idx],
            position: Vec3 { x: self.position.x, y: self.position.y, z: 0 },
            origin: match self.state {
                State::Fall => Vec2 { x: 500, y: 500 },
                _ => Vec2 { x: 500, y: 0 },
            },
            size: match self.state {
                State::Run => Size::FixedWidth(200),
                _ => Size::FixedWidth(140),
            },
        }
    }

    /// The sprite for the character's current pose: the active animation's
    /// phase-picked frame, with a per-state pivot and footprint width (the
    /// fallen poses draw smaller than the running one).
    pub fn draw(&self, assets: &Assets) -> (s: Sprite)
        requires
            self.wf(),
            assets.wf(),
        ensures
            s.position == (Vec3 { x: self.position.x, y: self.position.y, z: 0 }),
            s.texture == (TextureId::CharacterFrame {
                state: self.state,
                frame: self.frame_index(*assets) as usize,
            }),
            0 <= self.frame_index(*assets) < self.active_animation(*assets).frames@.len(),
            s.tex_info == self.active_animation(*assets).frames@[self.frame_index(*assets)],
            self.state is Run ==> s.origin == (Vec2 { x: 500, y: 0 }) && s.size
                == Size::FixedWidth(200),
            self.state is Fall ==> s.origin == (Vec2 { x: 500, y: 500 }) && s.size
                == Size::FixedWidth(140),
            self.state is FallSide ==> s.origin == (Vec2 { x: 500, y: 0 }) && s.size
                == Size::FixedWidth(140),
            s == self.sprite_spec(*assets),
    {
        let anim: &Animation = match self.state {
            State::Run => &assets.run,
            State::Fall => &assets.fall,
            State::FallSide => &assets.fall_side,
        };
        let n: usize = anim.frames.len();
        proof {
            lemma_product_cap(self.animation_position as int, n as int, 999, 1_000_000);
        }
        let raw: usize = (self.animation_position as usize) * n / 1000;
        let idx: usize = if raw >= n {
            n - 1
        } else {
            raw
        };
        let tex: TextureInfo = anim.frames[idx];
        let origin: Vec2 = match self.state {
            State::Fall => Vec2 { x: 500, y: 500 },
            _ => Vec2 { x: 500, y: 0 },
        };
        let width: i64 = match self.state {
            State::Run => 200,
            _ => 140,
        };
        Sprite {
            texture: TextureId::CharacterFrame { state: self.state, frame: idx },
            tex_info: tex,
            position: self.position.extend(0),
            origin,
            size: Size::FixedWidth(width),
        }
    }
}

/// The knockdown transitions are no-ops off the running state, and
/// idempotent: a second knockdown, of either kind, changes nothing further.
pub proof fn lemma_knockdown_idempotent(c: Character)
    ensures
        !(c.state is Run) ==> c.after_fall() == c && c.after_fall_side() == c,
        c.after_fall().after_fall() == c.after_fall(),
        c.after_fall_side().after_fall_side() == c.after_fall_side(),
        c.after_fall().after_fall_side() == c.after_fall(),
        c.after_fall_side().after_fall() == c.after_fall_side(),
{
}

} // verus!
