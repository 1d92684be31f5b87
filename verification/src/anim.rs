//! The sprite animator: cycles the bird's sprite frame on a repeating
//! per-frame timer. The timer is restarted from zero whenever it
//! finishes, so an overlong frame advances the sprite by one step at
//! most.

use vstd::prelude::*;
use crate::entities::{AnimationConfig, AnimModel};
use crate::DT_MAX_MS;

verus! {

/// A healthy animation: the index inside its cycle, the timer strictly
/// inside its period.
pub open spec fn anim_ok(a: AnimModel) -> bool {
    &&& a.first <= a.index <= a.last
    &&& 1 <= a.period <= 1000
    &&& 0 <= a.elapsed < a.period
}

/// One animator step of `dt` milliseconds: accumulate, and on passing
/// the period advance the sprite (wrapping from last to first) and
/// restart the timer.
pub open spec fn anim_after(a: AnimModel, dt: int) -> AnimModel {
    if a.elapsed + dt >= a.period {
        AnimModel {
            elapsed: 0,
            index: if a.index == a.last { a.first } else { a.index + 1 },
            ..a
        }
    } else {
        AnimModel { elapsed: a.elapsed + dt, ..a }
    }
}

impl AnimationConfig {
    /// A cycle over sprite indices `first ..= last` stepping `fps`
    /// times a second.
    pub fn new(first: usize, last: usize, fps: u8) -> (c: AnimationConfig)
        requires
            1 <= fps,
            first <= last,
        ensures
            c@ == (AnimModel {
                first: first as int,
                last: last as int,
                fps: fps as int,
                period: 1000 as int / fps as int,
                elapsed: 0,
                index: first as int,
            }),
            anim_ok(c@),
    {
        AnimationConfig {
            first_sprite_index: first,
            last_sprite_index: last,
            fps,
            frame_period_ms: Self::timer_from_fps(fps),
            frame_timer_ms: 0,
            sprite_index: first,
        }
    }

    /// How many milliseconds one sprite frame is shown at the given
    /// frame rate.
    pub fn timer_from_fps(fps: u8) -> (period: u32)
        requires
            1 <= fps,
        ensures
            period == 1000 as int / fps as int,
            1 <= period <= 1000,
    {
        proof {
            vstd::arithmetic::div_mod::lemma_div_is_ordered_by_denominator(1000, fps as int, 255);
            vstd::arithmetic::div_mod::lemma_div_is_ordered_by_denominator(1000, 1, fps as int);
        }
        1000 / (fps as u32)
    }
}

/// Advances the animation by one frame of `dt` milliseconds.
pub fn execute_animations(c: &mut AnimationConfig, dt: u32)
    requires
        dt <= DT_MAX_MS,
        anim_ok(old(c)@),
    ensures
        final(c)@ == anim_after(old(c)@, dt as int),
        anim_ok(final(c)@),
{
    let total = c.frame_timer_ms + dt;
    if total >= c.frame_period_ms {
        if c.sprite_index == c.last_sprite_index {
            c.sprite_index = c.first_sprite_index;
        } else {
            c.sprite_index = c.sprite_index + 1;
        }
        c.frame_timer_ms = 0;
    } else {
        c.frame_timer_ms = total;
    }
}

} // verus!
