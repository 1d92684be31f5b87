//! Core simulation of a side-scrolling "flappy bird" arcade game.
//!
//! A bird falls under gravity and jumps on input, pipe pairs scroll
//! leftward at a difficulty-scaled speed, and a four-phase state machine
//! (menu, playing, paused, game over) gates which systems run each
//! frame. All world coordinates and speeds are fixed-point integers:
//! 1000 milli-units are one world unit, velocities are milli-units per
//! second, and frame deltas are whole milliseconds, so every per-frame
//! computation is exact and the contracts state the integration,
//! collision, spawning and scoring rules as plain integer arithmetic.
//! The difficulty multiplier is held in hundredths (100 stands for 1.0).

pub mod anim;
pub mod collision;
pub mod entities;
pub mod score;
pub mod fixed;
pub mod mover;
pub mod physics;
pub mod sim;
pub mod spawner;

use vstd::prelude::*;

verus! {

/// Milli-units per world unit.
pub const SCALE: i64 = 1000;

/// Milliseconds per second, the divisor of the position integration.
pub const MS_PER_S: u64 = 1000;

/// Change of the bird's vertical velocity (milli-units per second) per
/// millisecond of frame delta: gravity of -500 units/s^2.
pub const GRAVITY_PER_MS: i64 = -500;

/// Vertical velocity set by a jump impulse: 300 units/s.
pub const JUMP_VELOCITY: i64 = 300_000;

/// The bird's fixed horizontal position: -100 units.
pub const BIRD_X: i64 = -100_000;

/// Half the bird's collision height: 25 units.
pub const BIRD_HALF_HEIGHT: i64 = 25_000;

/// Top of the ground rectangle's resting line: -250 units.
pub const GROUND_Y: i64 = -250_000;

/// Heights above this end the session: 300 units.
pub const CEILING_Y: i64 = 300_000;

/// Leftward scroll speed of a freshly spawned pipe: 150 units/s,
/// stored negated in `Pipe::vx`.
pub const PIPE_SPEED: i64 = 150_000;

/// Vertical clearance between the two pipes of a pair: 200 units.
pub const PIPE_GAP: i64 = 200_000;

/// Half a pipe's height: 200 units.
pub const PIPE_HALF_HEIGHT: i64 = 200_000;

/// Distance from a pair's gap center to each pipe's own center: half
/// the gap plus half a pipe's height.
pub const PIPE_OFFSET: i64 = 100_000 + PIPE_HALF_HEIGHT;

/// Where pipes appear, off the right edge: 500 units.
pub const PIPE_SPAWN_X: i64 = 500_000;

/// Pipes left of this are removed: -500 units.
pub const PIPE_DESPAWN_X: i64 = -500_000;

/// Largest magnitude of a pair's random gap center: 150 units.
pub const GAP_CENTER_LIMIT: i64 = 150_000;

/// Half-width of the bird-pipe overlap box: 45 units.
pub const COLLIDE_HALF_W: i64 = 45_000;

/// Half-height of the bird-pipe overlap box: 215 units.
pub const COLLIDE_HALF_H: i64 = 215_000;

/// Width of the scoring window a pipe's x must enter: 5 units.
pub const SCORE_WINDOW: i64 = 5_000;

/// The spawner's period: one pipe pair every 2 seconds.
pub const SPAWN_PERIOD_MS: u32 = 2000;

/// Difficulty multiplier of a fresh session, in hundredths: 1.0.
pub const MULT_BASE: u32 = 100;

/// Multiplier gain per passed gap, in hundredths: 0.05.
pub const MULT_RATE: u32 = 5;

/// Cap of the difficulty multiplier, in hundredths: 2.5.
pub const MULT_MAX: u32 = 250;

/// Divisor of the pipe displacement: milliseconds per second times
/// hundredths of the multiplier.
pub const MOVE_DENOM: u64 = 100_000;

/// Largest frame delta the integrators accept: one day, far beyond any
/// real frame, bounding the fixed-point arithmetic.
pub const DT_MAX_MS: u32 = 86_400_000;

/// Falling faster than this while still in bounds is impossible: one
/// millisecond at this speed already drops the bird from the ceiling
/// to below the ground line, so the collision pass ends the session.
pub const FALL_LIMIT: i64 = -526_000_000;

} // verus!
