//! The score and difficulty tracker. A pipe scores the moment its x
//! enters the window `[BIRD_X, BIRD_X + SCORE_WINDOW)`; a per-pipe
//! `scored` flag guarantees at-most-once counting however many frames
//! the pipe lingers there. The raw counter steps by one per pipe, the
//! displayed score is half of it, and each completed gap (every even
//! raw count) raises the speed multiplier along
//! `multiplier_for(pipes_passed)` up to its cap.

use vstd::prelude::*;
use crate::entities::{
    GameDifficulty, Label, LabelKind, LabelModel, Pipe, PipeModel, label_models, pipe_models,
    pipes_paired,
};
use crate::{BIRD_X, MULT_BASE, MULT_MAX, MULT_RATE, SCORE_WINDOW};

verus! {

/// Is a pipe's x inside the bird's scoring window this frame?
pub open spec fn in_window(px: int) -> bool {
    BIRD_X <= px < BIRD_X + SCORE_WINDOW
}

/// Does this pipe score this frame: in the window and never counted
/// before?
pub open spec fn counts(p: PipeModel) -> bool {
    !p.scored && in_window(p.x)
}

/// The difficulty multiplier owed after `pp` passed gaps, in
/// hundredths: base plus rate per gap, capped.
pub open spec fn multiplier_for(pp: int) -> int {
    if MULT_BASE + MULT_RATE * pp > MULT_MAX {
        MULT_MAX as int
    } else {
        MULT_BASE + MULT_RATE * pp
    }
}

/// One scoring pass over the pipes in order, threading the raw counter
/// and the passed-gap counter: a counting pipe is marked scored and
/// steps the raw counter; every even raw count completes a gap.
pub open spec fn score_fold(ps: Seq<PipeModel>, raw: int, pp: int) -> (Seq<PipeModel>, int, int)
    decreases ps.len(),
{
    if ps.len() == 0 {
        (ps, raw, pp)
    } else {
        let p = ps[0];
        let p1 = if counts(p) {
            PipeModel { scored: true, ..p }
        } else {
            p
        };
        let raw1 = if counts(p) {
            raw + 1
        } else {
            raw
        };
        let pp1 = if counts(p) && (raw + 1) % 2 == 0 {
            pp + 1
        } else {
            pp
        };
        let r = score_fold(ps.subrange(1, ps.len() as int), raw1, pp1);
        (seq![p1] + r.0, r.1, r.2)
    }
}

/// Shape of a scoring pass: it keeps every pipe in place, only sets
/// `scored` flags (exactly on the pipes in the window), raises the raw
/// counter by at most one per pipe, and keeps the passed-gap counter
/// at half the raw counter.
pub proof fn lemma_score_fold_props(ps: Seq<PipeModel>, raw: int, pp: int)
    requires
        0 <= raw,
        pp == raw / 2,
    ensures
        ({
            let r = score_fold(ps, raw, pp);
            &&& r.0.len() == ps.len()
            &&& raw <= r.1 <= raw + ps.len()
            &&& r.2 == r.1 / 2
            &&& forall|i: int|
                0 <= i < ps.len() ==> (#[trigger] r.0[i]).x == ps[i].x && r.0[i].y == ps[i].y
                    && r.0[i].vx == ps[i].vx && (r.0[i].scored <==> ps[i].scored || in_window(
                    ps[i].x,
                ))
        }),
    decreases ps.len(),
{
    if ps.len() > 0 {
        let p = ps[0];
        let raw1 = if counts(p) {
            raw + 1
        } else {
            raw
        };
        let pp1 = if counts(p) && (raw + 1) % 2 == 0 {
            pp + 1
        } else {
            pp
        };
        assert(pp1 == raw1 / 2);
        lemma_score_fold_props(ps.subrange(1, ps.len() as int), raw1, pp1);
    }
}

/// Scoring a paired row by an even raw counter keeps both: the two
/// pipes of a pair share x and scored flag, so a pass counts either
/// both or neither, stepping the raw counter by two at a time. The raw
/// counter is therefore even at every frame boundary.
pub proof fn lemma_score_fold_paired(ps: Seq<PipeModel>, raw: int, pp: int)
    requires
        pipes_paired(ps),
        raw % 2 == 0,
    ensures
        pipes_paired(score_fold(ps, raw, pp).0),
        score_fold(ps, raw, pp).1 % 2 == 0,
    decreases ps.len(),
{
    if ps.len() > 0 {
        let p0 = ps[0];
        let p1 = ps[1];
        let tail1 = ps.subrange(1, ps.len() as int);
        let tail2 = ps.subrange(2, ps.len() as int);
        assert(tail1[0] == p1);
        assert(tail1.subrange(1, tail1.len() as int) =~= tail2);
        assert(counts(p0) == counts(p1));
        let q0 = if counts(p0) {
            PipeModel { scored: true, ..p0 }
        } else {
            p0
        };
        let q1 = if counts(p1) {
            PipeModel { scored: true, ..p1 }
        } else {
            p1
        };
        let raw2 = if counts(p0) {
            raw + 2
        } else {
            raw
        };
        let pp2 = if counts(p0) {
            pp + 1
        } else {
            pp
        };
        assert(score_fold(tail1, if counts(p0) { raw + 1 } else { raw }, if counts(p0) && (raw
            + 1) % 2 == 0 {
            pp + 1
        } else {
            pp
        }) == (seq![q1] + score_fold(tail2, raw2, pp2).0, score_fold(tail2, raw2, pp2).1,
        score_fold(tail2, raw2, pp2).2));
        lemma_score_fold_paired(tail2, raw2, pp2);
        let rest = score_fold(tail2, raw2, pp2);
        let out = seq![q0] + (seq![q1] + rest.0);
        assert(score_fold(ps, raw, pp).0 == out);
        assert(out[0] == q0);
        assert(out[1] == q1);
        assert(out.subrange(2, out.len() as int) =~= rest.0);
    }
}

/// Scoring is idempotent per window: a second pass over the outcome of
/// a pass changes nothing, because every pipe still in the window
/// already carries its `scored` flag. A pipe that lingers in the
/// window over consecutive frames is therefore counted exactly once.
pub proof fn lemma_score_fold_idempotent(ps: Seq<PipeModel>, raw: int, pp: int)
    requires
        0 <= raw,
        pp == raw / 2,
    ensures
        ({
            let r = score_fold(ps, raw, pp);
            &&& score_fold(r.0, r.1, r.2).0 == r.0
            &&& score_fold(r.0, r.1, r.2).1 == r.1
            &&& score_fold(r.0, r.1, r.2).2 == r.2
        }),
    decreases ps.len(),
{
    let r = score_fold(ps, raw, pp);
    if ps.len() == 0 {
    } else {
        let p = ps[0];
        let p1 = if counts(p) {
            PipeModel { scored: true, ..p }
        } else {
            p
        };
        let raw1 = if counts(p) {
            raw + 1
        } else {
            raw
        };
        let pp1 = if counts(p) && (raw + 1) % 2 == 0 {
            pp + 1
        } else {
            pp
        };
        let tail = ps.subrange(1, ps.len() as int);
        let rt = score_fold(tail, raw1, pp1);
        lemma_score_fold_idempotent(tail, raw1, pp1);
        assert(!counts(p1));
        assert(r.0 == seq![p1] + rt.0);
        assert(r.0[0] == p1);
        assert(r.0.subrange(1, r.0.len() as int) =~= rt.0);
        assert(score_fold(r.0, r.1, r.2).0 =~= r.0);
    }
}

/// Computes the owed multiplier for a passed-gap count.
pub fn compute_multiplier(pp: u32) -> (m: u32)
    ensures
        m == multiplier_for(pp as int),
{
    if pp >= 30 {
        MULT_MAX
    } else {
        MULT_BASE + MULT_RATE * pp
    }
}

/// One scoring pass for the frame: marks, counts, and keeps the
/// difficulty on its schedule. Returns whether the raw counter moved.
pub fn update_score(pipes: &mut Vec<Pipe>, raw_score: &mut u32, difficulty: &mut GameDifficulty)
    -> (changed: bool)
    requires
        *old(raw_score) + old(pipes)@.len() <= u32::MAX,
        old(difficulty).pipes_passed == *old(raw_score) as int / 2,
        old(difficulty).speed_multiplier == multiplier_for(old(difficulty).pipes_passed as int),
    ensures
        ({
            let r = score_fold(
                pipe_models(old(pipes)@),
                *old(raw_score) as int,
                old(difficulty).pipes_passed as int,
            );
            &&& pipe_models(final(pipes)@) == r.0
            &&& *final(raw_score) == r.1
            &&& final(difficulty).pipes_passed == r.2
            &&& final(difficulty).speed_multiplier == multiplier_for(r.2)
            &&& changed == (r.1 != *old(raw_score))
        }),
{
    let ghost all = pipe_models(pipes@);
    let ghost raw0 = *raw_score as int;
    let ghost pp0 = difficulty.pipes_passed as int;
    let mut out: Vec<Pipe> = Vec::new();
    let mut changed = false;
    let mut i: usize = 0;
    proof {
        assert(all.subrange(0, all.len() as int) =~= all);
        lemma_score_fold_props(all, raw0, pp0);
    }
    while i < pipes.len()
        invariant
            i <= pipes.len(),
            all == pipe_models(pipes@),
            all.len() == pipes@.len(),
            out@.len() == i,
            raw0 + all.len() <= u32::MAX,
            raw0 <= *raw_score <= raw0 + i,
            difficulty.pipes_passed == *raw_score as int / 2,
            difficulty.speed_multiplier == multiplier_for(difficulty.pipes_passed as int),
            changed == (*raw_score as int != raw0),
            score_fold(all, raw0, pp0).0 == pipe_models(out@) + score_fold(
                all.subrange(i as int, all.len() as int),
                *raw_score as int,
                difficulty.pipes_passed as int,
            ).0,
            score_fold(all, raw0, pp0).1 == score_fold(
                all.subrange(i as int, all.len() as int),
                *raw_score as int,
                difficulty.pipes_passed as int,
            ).1,
            score_fold(all, raw0, pp0).2 == score_fold(
                all.subrange(i as int, all.len() as int),
                *raw_score as int,
                difficulty.pipes_passed as int,
            ).2,
        decreases pipes.len() - i,
    {
        let p = pipes[i];
        let ghost tail = all.subrange(i as int, all.len() as int);
        let ghost prev = out@;
        proof {
            assert(tail[0] == all[i as int]);
            assert(all[i as int] == p@);
            assert(tail.subrange(1, tail.len() as int) =~= all.subrange(
                i as int + 1,
                all.len() as int,
            ));
        }
        if !p.scored && p.x >= BIRD_X && p.x < BIRD_X + SCORE_WINDOW {
            out.push(Pipe { scored: true, ..p });
            *raw_score = *raw_score + 1;
            if *raw_score % 2 == 0 {
                difficulty.pipes_passed = difficulty.pipes_passed + 1;
                difficulty.speed_multiplier = compute_multiplier(difficulty.pipes_passed);
            }
            changed = true;
        } else {
            out.push(p);
        }
        proof {
            assert(pipe_models(out@) =~= pipe_models(prev) + seq![out@[out@.len() - 1]@]);
            assert(pipe_models(out@) + score_fold(
                all.subrange(i as int + 1, all.len() as int),
                *raw_score as int,
                difficulty.pipes_passed as int,
            ).0 =~= pipe_models(prev) + (seq![out@[out@.len() - 1]@] + score_fold(
                all.subrange(i as int + 1, all.len() as int),
                *raw_score as int,
                difficulty.pipes_passed as int,
            ).0));
        }
        i = i + 1;
    }
    proof {
        assert(all.subrange(all.len() as int, all.len() as int) =~= Seq::<PipeModel>::empty());
        assert(pipe_models(out@) + Seq::<PipeModel>::empty() =~= pipe_models(out@));
    }
    *pipes = out;
    changed
}

/// The labels after the frame's score refresh: every score board shows
/// the new displayed score; other labels stand as they are.
pub open spec fn set_score_labels(ls: Seq<LabelModel>, shown: int) -> Seq<LabelModel> {
    ls.map_values(
        |l: LabelModel|
            if l.kind == LabelKind::ScoreBoard {
                LabelModel { kind: l.kind, value: shown }
            } else {
                l
            },
    )
}

/// Writes the displayed score into every score board label. Zero
/// matching labels is fine: label existence belongs to the state
/// transitions, and a missing board makes this a no-op.
pub fn refresh_score_label(labels: &mut Vec<Label>, shown: u32)
    ensures
        label_models(final(labels)@) == set_score_labels(label_models(old(labels)@), shown as int),
{
    let mut out: Vec<Label> = Vec::new();
    let mut i: usize = 0;
    while i < labels.len()
        invariant
            i <= labels.len(),
            out@.len() == i,
            forall|k: int|
                0 <= k < i ==> (#[trigger] out@[k])@ == set_score_labels(
                    label_models(labels@),
                    shown as int,
                )[k],
        decreases labels.len() - i,
    {
        let l = labels[i];
        if matches!(l.kind, LabelKind::ScoreBoard) {
            out.push(Label { kind: l.kind, value: shown });
        } else {
            out.push(l);
        }
        i = i + 1;
    }
    proof {
        assert(label_models(out@) =~= set_score_labels(label_models(labels@), shown as int));
    }
    *labels = out;
}

} // verus!
