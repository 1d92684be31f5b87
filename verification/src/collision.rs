//! The collision detector: every playing frame it tests, in this fixed
//! order, bird against ground, bird against ceiling, and bird against
//! each pipe's axis-aligned overlap box. The first satisfied rule wins
//! and names the collision; any hit forces the session into game over.

use vstd::prelude::*;
use crate::entities::{Bird, BirdModel, CollisionKind, Pipe, PipeModel, pipe_models};
use crate::{BIRD_HALF_HEIGHT, BIRD_X, CEILING_Y, COLLIDE_HALF_H, COLLIDE_HALF_W, GROUND_Y};
use crate::physics::POS_LIMIT;

verus! {

/// Is the bird below the ground line (ground top plus half the bird)?
pub open spec fn hits_ground(by: int) -> bool {
    by < GROUND_Y + BIRD_HALF_HEIGHT
}

/// Is the bird above the ceiling?
pub open spec fn hits_ceiling(by: int) -> bool {
    by > CEILING_Y
}

/// Does the bird's box overlap this pipe's box? A deliberately loose
/// axis-aligned test, not pixel-accurate.
pub open spec fn hits_pipe(b: BirdModel, p: PipeModel) -> bool {
    &&& -COLLIDE_HALF_W < BIRD_X - p.x < COLLIDE_HALF_W
    &&& -COLLIDE_HALF_H < b.y - p.y < COLLIDE_HALF_H
}

/// The detector's answer: the first rule of the fixed order that
/// holds, or nothing.
pub open spec fn collision_of(b: BirdModel, ps: Seq<PipeModel>) -> Option<CollisionKind> {
    if hits_ground(b.y) {
        Some(CollisionKind::Ground)
    } else if hits_ceiling(b.y) {
        Some(CollisionKind::Ceiling)
    } else if exists|i: int| 0 <= i < ps.len() && hits_pipe(b, #[trigger] ps[i]) {
        Some(CollisionKind::PipeHit)
    } else {
        None
    }
}

/// The check order is deterministic: a bird below the ground line is
/// reported as a ground collision, whatever pipes it also overlaps.
pub proof fn lemma_ground_reported_first(b: BirdModel, ps: Seq<PipeModel>)
    requires
        hits_ground(b.y),
    ensures
        collision_of(b, ps) == Some(CollisionKind::Ground),
{
}

/// Runs the ordered collision rules for one frame.
pub fn check_collisions(bird: &Bird, pipes: &Vec<Pipe>) -> (r: Option<CollisionKind>)
    requires
        -POS_LIMIT <= bird.y <= POS_LIMIT,
        forall|i: int| 0 <= i < pipes@.len() ==> -1_000_000 <= (#[trigger] pipes@[i]).x
            <= 1_000_000 && -1_000_000 <= pipes@[i].y <= 1_000_000,
    ensures
        r == collision_of(bird@, pipe_models(pipes@)),
{
    if bird.y < GROUND_Y + BIRD_HALF_HEIGHT {
        return Some(CollisionKind::Ground);
    }
    if bird.y > CEILING_Y {
        return Some(CollisionKind::Ceiling);
    }
    let ghost ms = pipe_models(pipes@);
    let mut i: usize = 0;
    while i < pipes.len()
        invariant
            i <= pipes.len(),
            ms == pipe_models(pipes@),
            !hits_ground(bird@.y),
            !hits_ceiling(bird@.y),
            -POS_LIMIT <= bird.y <= POS_LIMIT,
            forall|k: int| 0 <= k < pipes@.len() ==> -1_000_000 <= (#[trigger] pipes@[k]).x
                <= 1_000_000 && -1_000_000 <= pipes@[k].y <= 1_000_000,
            forall|k: int| 0 <= k < i ==> !hits_pipe(bird@, #[trigger] ms[k]),
        decreases pipes.len() - i,
    {
        let p = pipes[i];
        let dx = BIRD_X - p.x;
        let dy = bird.y - p.y;
        if -COLLIDE_HALF_W < dx && dx < COLLIDE_HALF_W && -COLLIDE_HALF_H < dy && dy
            < COLLIDE_HALF_H {
            proof {
                assert(hits_pipe(bird@, ms[i as int]));
                assert(exists|k: int| 0 <= k < ms.len() && hits_pipe(bird@, #[trigger] ms[k]));
            }
            return Some(CollisionKind::PipeHit);
        }
        i = i + 1;
    }
    None
}

} // verus!
