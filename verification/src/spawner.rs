//! The obstacle spawner: a repeating timer of fixed period that, each
//! time it completes, places one pipe pair at the spawn line. The pair
//! shares a gap center; the top pipe stands `PIPE_OFFSET` above it and
//! the bottom pipe the same distance below. The gap center is drawn
//! uniformly from `[-GAP_CENTER_LIMIT, GAP_CENTER_LIMIT)`; callers that
//! need determinism pass the drawn value in themselves.

use vstd::prelude::*;
use rand::Rng;
use crate::entities::{Pipe, PipeModel, pipe_models, pipe_ok, pipes_paired};
use crate::{DT_MAX_MS, GAP_CENTER_LIMIT, PIPE_OFFSET, PIPE_SPAWN_X, PIPE_SPEED, SPAWN_PERIOD_MS};

verus! {

/// Does a frame of `dt` milliseconds complete the spawn timer?
pub open spec fn spawn_fires(acc: int, dt: int) -> bool {
    acc + dt >= SPAWN_PERIOD_MS
}

/// The timer's accumulator after a frame: the overshoot wraps into the
/// next period when the timer completes.
pub open spec fn timer_after(acc: int, dt: int) -> int {
    if spawn_fires(acc, dt) {
        (acc + dt) % (SPAWN_PERIOD_MS as int)
    } else {
        acc + dt
    }
}

/// The pipe pair a completed timer adds at the spawn line, top pipe
/// first.
pub open spec fn spawned_pair(gap_center: int) -> Seq<PipeModel> {
    seq![
        PipeModel {
            x: PIPE_SPAWN_X as int,
            y: gap_center + PIPE_OFFSET,
            vx: -(PIPE_SPEED as int),
            scored: false,
        },
        PipeModel {
            x: PIPE_SPAWN_X as int,
            y: gap_center - PIPE_OFFSET,
            vx: -(PIPE_SPEED as int),
            scored: false,
        },
    ]
}

/// Both pipes of a pair whose gap center honors the draw's range are
/// healthy pipes.
pub proof fn lemma_spawned_pair_ok(gap_center: int)
    requires
        -GAP_CENTER_LIMIT <= gap_center <= GAP_CENTER_LIMIT,
    ensures
        forall|j: int|
            0 <= j < spawned_pair(gap_center).len() ==> pipe_ok(
                #[trigger] spawned_pair(gap_center)[j],
            ),
{
}

/// Spawning keeps pipes paired: the fresh pair shares its x, speed and
/// (unset) scored flag.
pub proof fn lemma_paired_append_pair(ps: Seq<PipeModel>, gap_center: int)
    requires
        pipes_paired(ps),
    ensures
        pipes_paired(ps + spawned_pair(gap_center)),
    decreases ps.len(),
{
    let pair = spawned_pair(gap_center);
    if ps.len() == 0 {
        assert(ps + pair =~= pair);
        assert(pair.subrange(2, 2) =~= Seq::<PipeModel>::empty());
        assert(pipes_paired(Seq::<PipeModel>::empty()));
        assert(pipes_paired(pair));
    } else {
        let out = ps + pair;
        assert(ps.len() >= 2);
        assert(out[0] == ps[0]);
        assert(out[1] == ps[1]);
        assert(out.subrange(2, out.len() as int) =~= ps.subrange(2, ps.len() as int) + pair);
        lemma_paired_append_pair(ps.subrange(2, ps.len() as int), gap_center);
    }
}

/// Relies on rand::Rng::gen_range over an integer range: the sampled
/// value lies in the given half-open range.
#[verifier::external_body]
pub(crate) fn draw_gap_center() -> (r: i64)
    ensures
        -GAP_CENTER_LIMIT <= r < GAP_CENTER_LIMIT,
{
    rand::thread_rng().gen_range(-GAP_CENTER_LIMIT..GAP_CENTER_LIMIT)
}

/// Ticks the spawn timer by `dt` milliseconds and, when it completes,
/// appends one pipe pair around `gap_center`.
pub fn spawn_pipes(timer: &mut u32, pipes: &mut Vec<Pipe>, dt: u32, gap_center: i64) -> (fired:
    bool)
    requires
        *old(timer) < SPAWN_PERIOD_MS,
        dt <= DT_MAX_MS,
        -GAP_CENTER_LIMIT <= gap_center <= GAP_CENTER_LIMIT,
    ensures
        fired == spawn_fires(*old(timer) as int, dt as int),
        *final(timer) == timer_after(*old(timer) as int, dt as int),
        *final(timer) < SPAWN_PERIOD_MS,
        pipe_models(final(pipes)@) == pipe_models(old(pipes)@) + if fired {
            spawned_pair(gap_center as int)
        } else {
            Seq::<PipeModel>::empty()
        },
{
    let total = *timer + dt;
    if total >= SPAWN_PERIOD_MS {
        *timer = total % SPAWN_PERIOD_MS;
        let top = Pipe {
            x: PIPE_SPAWN_X,
            y: gap_center + PIPE_OFFSET,
            vx: -PIPE_SPEED,
            scored: false,
        };
        let bottom = Pipe {
            x: PIPE_SPAWN_X,
            y: gap_center - PIPE_OFFSET,
            vx: -PIPE_SPEED,
            scored: false,
        };
        pipes.push(top);
        pipes.push(bottom);
        proof {
            assert(pipe_models(pipes@) =~= pipe_models(old(pipes)@) + spawned_pair(
                gap_center as int,
            ));
        }
        true
    } else {
        *timer = total;
        proof {
            assert(pipe_models(pipes@) =~= pipe_models(old(pipes)@)
                + Seq::<PipeModel>::empty());
        }
        false
    }
}

} // verus!
