//! The physics integrator: per-frame gravity and jump impulses for the
//! bird. Each playing frame first adds gravity to the vertical velocity
//! and then moves the bird by the new velocity, exactly as the models
//! `velocity_after` and `bird_after` state. Nothing here clamps the
//! bird; going out of bounds is the collision detector's business.

use vstd::prelude::*;
use crate::entities::{Bird, BirdModel};
use crate::fixed::{tdiv, lemma_mul_abs_bound, lemma_tdiv_scale_bound};
use crate::{GRAVITY_PER_MS, JUMP_VELOCITY, DT_MAX_MS, MS_PER_S};

verus! {

/// Velocity bound (milli-units per second) under which the integrator's
/// arithmetic is proved exact; a machine limit, far past any speed a
/// session reaches.
pub const VEL_LIMIT: i64 = 1_000_000_000_000;

/// Height bound (milli-units) under which the integrator's arithmetic
/// is proved exact; a machine limit.
pub const POS_LIMIT: i64 = 4_000_000_000_000_000;

/// The vertical velocity after `dt` milliseconds of gravity.
pub open spec fn velocity_after(v: int, dt: int) -> int {
    v + GRAVITY_PER_MS * dt
}

/// The height after `dt` milliseconds at velocity `v` (milli-units per
/// second), truncating toward zero as the fixed-point division does.
pub open spec fn position_after(y: int, v: int, dt: int) -> int {
    y + tdiv(v * dt, MS_PER_S as int)
}

/// One integration step: gravity first, then movement by the new
/// velocity.
pub open spec fn bird_after(b: BirdModel, dt: int) -> BirdModel {
    BirdModel {
        velocity: velocity_after(b.velocity, dt),
        y: position_after(b.y, velocity_after(b.velocity, dt), dt),
    }
}

/// Pure gravity drives the velocity monotonically downward: a frame
/// never raises it, and any frame of positive delta strictly lowers it,
/// so repeated frames without a jump sink it below every bound.
pub proof fn lemma_gravity_monotone(v: int, dt: int)
    requires
        dt >= 0,
    ensures
        velocity_after(v, dt) <= v,
        dt > 0 ==> velocity_after(v, dt) < v,
{
}

/// The velocity after `n` frames of `dt` milliseconds each, with no
/// jump input.
pub open spec fn velocity_after_frames(v: int, dt: int, n: nat) -> int
    decreases n,
{
    if n == 0 {
        v
    } else {
        velocity_after(velocity_after_frames(v, dt, (n - 1) as nat), dt)
    }
}

/// Pure gravity accumulates linearly over frames.
pub proof fn lemma_gravity_closed_form(v: int, dt: int, n: nat)
    ensures
        velocity_after_frames(v, dt, n) == v + GRAVITY_PER_MS * dt * n,
    decreases n,
{
    if n == 0 {
        assert(GRAVITY_PER_MS * dt * 0 == 0) by (nonlinear_arith);
    } else {
        lemma_gravity_closed_form(v, dt, (n - 1) as nat);
        assert(v + GRAVITY_PER_MS * dt * (n - 1) + GRAVITY_PER_MS * dt == v + GRAVITY_PER_MS * dt
            * n) by (nonlinear_arith);
    }
}

/// Under pure gravity the velocity not only falls monotonically, it
/// falls below every bound: enough frames of any positive delta sink
/// it past any `bound`.
pub proof fn lemma_gravity_diverges(v: int, dt: int, bound: int)
    requires
        dt >= 1,
    ensures
        exists|n: nat| velocity_after_frames(v, dt, n) < bound,
{
    if v < bound {
        assert(velocity_after_frames(v, dt, 0) < bound);
    } else {
        let n = (v - bound + 1) as nat;
        lemma_gravity_closed_form(v, dt, n);
        assert(v + GRAVITY_PER_MS * dt * n < bound) by (nonlinear_arith)
            requires
                dt >= 1,
                n == v - bound + 1,
                v >= bound,
                GRAVITY_PER_MS == -500,
        ;
        assert(velocity_after_frames(v, dt, n) < bound);
    }
}

/// A jump overwrites the velocity with the impulse constant; prior
/// velocity never stacks with it.
pub fn bird_input(bird: &mut Bird, jump: bool)
    ensures
        final(bird).velocity == if jump { JUMP_VELOCITY as int } else { old(bird).velocity as int },
        final(bird).y == old(bird).y,
{
    if jump {
        bird.velocity = JUMP_VELOCITY;
    }
}

/// Advances the bird by one frame of `dt` milliseconds.
pub fn bird_movement(bird: &mut Bird, dt: u32)
    requires
        dt <= DT_MAX_MS,
        -VEL_LIMIT <= old(bird).velocity <= VEL_LIMIT,
        -POS_LIMIT <= old(bird).y <= POS_LIMIT,
    ensures
        final(bird)@ == bird_after(old(bird)@, dt as int),
{
    let v: i64 = bird.velocity + GRAVITY_PER_MS * (dt as i64);
    proof {
        lemma_mul_abs_bound(v as int, dt as int, 1_050_000_000_000, DT_MAX_MS as int);
        lemma_tdiv_scale_bound(v as int * dt as int, 1000, 90_720_000_000_000_000);
    }
    let dy: i64 = crate::fixed::mul_scaled(v, dt as u64, 1000);
    bird.velocity = v;
    bird.y = bird.y + dy;
}

} // verus!
