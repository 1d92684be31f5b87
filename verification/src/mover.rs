//! The obstacle mover and reaper: every frame each pipe slides left by
//! its scroll speed scaled by the difficulty multiplier, and any pipe
//! that leaves the visible area past `PIPE_DESPAWN_X` is removed. The
//! whole pass is the per-pipe map-and-filter `move_reap`.

use vstd::prelude::*;
use crate::entities::{Pipe, PipeModel, pipe_models, pipe_ok, pipes_paired};
use crate::fixed::{tdiv, lemma_mul_abs_bound, lemma_tdiv_scale_bound, mul_scaled};
use crate::{DT_MAX_MS, MOVE_DENOM, MULT_BASE, MULT_MAX, PIPE_DESPAWN_X};

verus! {

/// How far a pipe of speed `vx` (milli-units per second, negative)
/// slides in `dt` milliseconds under a multiplier of `mult` hundredths:
/// `vx * dt * mult / 100_000`, truncating toward zero.
pub open spec fn pipe_shift(vx: int, dt: int, mult: int) -> int {
    tdiv(vx * (dt * mult), MOVE_DENOM as int)
}

/// A pipe after one frame: only its x changes.
pub open spec fn moved_pipe(p: PipeModel, dt: int, mult: int) -> PipeModel {
    PipeModel { x: p.x + pipe_shift(p.vx, dt, mult), ..p }
}

/// One mover pass: every pipe slides, and those that end up past the
/// despawn threshold are dropped.
pub open spec fn move_reap(ps: Seq<PipeModel>, dt: int, mult: int) -> Seq<PipeModel>
    decreases ps.len(),
{
    if ps.len() == 0 {
        Seq::empty()
    } else {
        let q = moved_pipe(ps[0], dt, mult);
        let rest = move_reap(ps.subrange(1, ps.len() as int), dt, mult);
        if q.x >= PIPE_DESPAWN_X {
            seq![q] + rest
        } else {
            rest
        }
    }
}

/// A healthy pipe that survives a pass is still healthy: it never
/// moves right, and the reaper keeps it above the despawn threshold.
pub proof fn lemma_moved_pipe_ok(p: PipeModel, dt: int, mult: int)
    requires
        pipe_ok(p),
        0 <= dt <= DT_MAX_MS,
        MULT_BASE <= mult <= MULT_MAX,
        moved_pipe(p, dt, mult).x >= PIPE_DESPAWN_X,
    ensures
        pipe_ok(moved_pipe(p, dt, mult)),
{
    assert(0 <= dt * mult <= 21_600_000_000) by (nonlinear_arith)
        requires
            0 <= dt <= DT_MAX_MS,
            0 <= mult <= MULT_MAX,
    ;
    lemma_mul_abs_bound(p.vx, dt * mult, 150_000, 21_600_000_000);
    lemma_tdiv_scale_bound(p.vx * (dt * mult), MOVE_DENOM as int, 32_400_000_000_000);
    assert(p.vx * (dt * mult) <= 0) by (nonlinear_arith)
        requires
            p.vx <= 0,
            dt >= 0,
            mult >= 0,
    ;
}

/// The mover keeps pipes paired: the two pipes of a pair share x and
/// speed, so they slide alike and the reaper keeps or drops them
/// together.
pub proof fn lemma_move_reap_paired(ps: Seq<PipeModel>, dt: int, mult: int)
    requires
        pipes_paired(ps),
    ensures
        pipes_paired(move_reap(ps, dt, mult)),
    decreases ps.len(),
{
    if ps.len() > 0 {
        let tail1 = ps.subrange(1, ps.len() as int);
        let tail2 = ps.subrange(2, ps.len() as int);
        assert(tail1[0] == ps[1]);
        assert(tail1.subrange(1, tail1.len() as int) =~= tail2);
        let q0 = moved_pipe(ps[0], dt, mult);
        let q1 = moved_pipe(ps[1], dt, mult);
        let rest = move_reap(tail2, dt, mult);
        lemma_move_reap_paired(tail2, dt, mult);
        assert(q0.x == q1.x);
        assert(move_reap(tail1, dt, mult) == if q1.x >= PIPE_DESPAWN_X {
            seq![q1] + rest
        } else {
            rest
        });
        if q0.x >= PIPE_DESPAWN_X {
            let out = seq![q0] + (seq![q1] + rest);
            assert(move_reap(ps, dt, mult) == out);
            assert(out[0] == q0);
            assert(out[1] == q1);
            assert(out.subrange(2, out.len() as int) =~= rest);
        } else {
            assert(move_reap(ps, dt, mult) == rest);
        }
    }
}

/// A mover pass never adds pipes.
pub proof fn lemma_move_reap_len(ps: Seq<PipeModel>, dt: int, mult: int)
    ensures
        move_reap(ps, dt, mult).len() <= ps.len(),
    decreases ps.len(),
{
    if ps.len() > 0 {
        lemma_move_reap_len(ps.subrange(1, ps.len() as int), dt, mult);
    }
}

/// Slides every pipe left by one frame and removes those that left the
/// visible area.
pub fn pipe_movement(pipes: &mut Vec<Pipe>, dt: u32, mult: u32)
    requires
        dt <= DT_MAX_MS,
        MULT_BASE <= mult <= MULT_MAX,
        forall|i: int| 0 <= i < old(pipes)@.len() ==> pipe_ok(#[trigger] old(pipes)@[i]@),
    ensures
        pipe_models(final(pipes)@) == move_reap(pipe_models(old(pipes)@), dt as int, mult as int),
        forall|i: int| 0 <= i < final(pipes)@.len() ==> pipe_ok(#[trigger] final(pipes)@[i]@),
{
    let ghost all = pipe_models(pipes@);
    let mut out: Vec<Pipe> = Vec::new();
    let mut i: usize = 0;
    proof {
        assert(all.subrange(0, all.len() as int) =~= all);
        assert(pipe_models(out@) + move_reap(all, dt as int, mult as int) =~= move_reap(
            all,
            dt as int,
            mult as int,
        ));
    }
    while i < pipes.len()
        invariant
            i <= pipes.len(),
            all == pipe_models(pipes@),
            all.len() == pipes@.len(),
            dt <= DT_MAX_MS,
            MULT_BASE <= mult <= MULT_MAX,
            forall|k: int| 0 <= k < pipes@.len() ==> pipe_ok(#[trigger] pipes@[k]@),
            move_reap(all, dt as int, mult as int) == pipe_models(out@) + move_reap(
                all.subrange(i as int, all.len() as int),
                dt as int,
                mult as int,
            ),
            forall|k: int| 0 <= k < out@.len() ==> pipe_ok(#[trigger] out@[k]@),
        decreases pipes.len() - i,
    {
        let p = pipes[i];
        proof {
            assert(all[i as int] == p@);
            assert(0 <= dt as int * mult as int <= 21_600_000_000) by (nonlinear_arith)
                requires
                    0 <= dt as int <= DT_MAX_MS as int,
                    0 <= mult as int <= MULT_MAX as int,
            ;
            lemma_mul_abs_bound(p.vx as int, dt as int * mult as int, 150_000, 21_600_000_000);
            lemma_tdiv_scale_bound(
                p.vx as int * (dt as int * mult as int),
                MOVE_DENOM as int,
                32_400_000_000_000,
            );
        }
        let shift = mul_scaled(p.vx, (dt as u64) * (mult as u64), MOVE_DENOM);
        let nx = p.x + shift;
        let moved = Pipe { x: nx, y: p.y, vx: p.vx, scored: p.scored };
        let ghost prev = out@;
        let ghost tail = all.subrange(i as int, all.len() as int);
        let ghost rest = move_reap(
            all.subrange(i as int + 1, all.len() as int),
            dt as int,
            mult as int,
        );
        proof {
            assert(tail[0] == all[i as int]);
            assert(tail.subrange(1, tail.len() as int) =~= all.subrange(
                i as int + 1,
                all.len() as int,
            ));
            assert(moved@ == moved_pipe(all[i as int], dt as int, mult as int));
            if moved@.x >= PIPE_DESPAWN_X {
                lemma_moved_pipe_ok(all[i as int], dt as int, mult as int);
            }
        }
        if nx >= PIPE_DESPAWN_X {
            out.push(moved);
            proof {
                assert(pipe_models(out@) =~= pipe_models(prev) + seq![moved@]);
                assert(pipe_models(out@) + rest =~= pipe_models(prev) + (seq![moved@] + rest));
            }
        }
        i = i + 1;
    }
    proof {
        assert(all.subrange(all.len() as int, all.len() as int) =~= Seq::<PipeModel>::empty());
        assert(move_reap(all, dt as int, mult as int) == pipe_models(out@) + move_reap(
            all.subrange(all.len() as int, all.len() as int),
            dt as int,
            mult as int,
        ));
        assert(pipe_models(out@) + Seq::<PipeModel>::empty() =~= pipe_models(out@));
    }
    *pipes = out;
}

} // verus!
