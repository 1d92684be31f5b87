//! The simulation's entities and their mathematical models.
//!
//! Executable state is held in plain integer fields; each type has a
//! ghost model over `int` that the contracts speak about. `1000`
//! milli-units are one world unit and one frame delta is a whole number
//! of milliseconds, so the models mirror the executable values exactly.

use vstd::prelude::*;

verus! {

/// The four phases of a session. Exactly one is active at a time.
#[derive(Clone, Copy, Debug, PartialEq, Eq, Structural)]
pub enum GameState {
    Menu,
    Playing,
    Paused,
    GameOver,
}

/// What a text label on screen shows. The rendering layer owns the
/// wording; the simulation owns which labels exist and the score they
/// display.
#[derive(Clone, Copy, Debug, PartialEq, Eq, Structural)]
pub enum LabelKind {
    MenuPrompt,
    ScoreBoard,
    PauseOverlay,
    GameOverBoard,
}

/// Which of the ordered collision rules fired first.
#[derive(Clone, Copy, Debug, PartialEq, Eq, Structural)]
pub enum CollisionKind {
    Ground,
    Ceiling,
    PipeHit,
}

/// The frame's edge-triggered input events, already debounced: each
/// flag says "was pressed this frame".
#[derive(Clone, Copy, Debug, PartialEq, Eq, Structural)]
pub struct Input {
    pub start: bool,
    pub jump: bool,
    pub pause: bool,
    pub restart: bool,
    pub screenshot: bool,
}

/// The bird. Its x stays at `BIRD_X`; only height and vertical velocity
/// change. Position in milli-units, velocity in milli-units per second.
#[derive(Clone, Copy, Debug, PartialEq, Eq, Structural)]
pub struct Bird {
    pub y: i64,
    pub velocity: i64,
}

/// One obstacle of a spawned pair. `vx` is its leftward scroll speed in
/// milli-units per second (negative); `scored` guards against counting
/// the same pipe twice.
#[derive(Clone, Copy, Debug, PartialEq, Eq, Structural)]
pub struct Pipe {
    pub x: i64,
    pub y: i64,
    pub vx: i64,
    pub scored: bool,
}

/// A text label entity. `value` is the displayed score for the kinds
/// that show one.
#[derive(Clone, Copy, Debug, PartialEq, Eq, Structural)]
pub struct Label {
    pub kind: LabelKind,
    pub value: u32,
}

/// The difficulty ramp: `speed_multiplier` is held in hundredths
/// (100 stands for 1.0) and follows `multiplier_for(pipes_passed)`.
#[derive(Clone, Copy, Debug, PartialEq, Eq, Structural)]
pub struct GameDifficulty {
    pub speed_multiplier: u32,
    pub pipes_passed: u32,
}

impl Default for GameDifficulty {
    /// A fresh session: multiplier 1.0, no gaps passed.
    fn default() -> (d: GameDifficulty)
        ensures
            d.speed_multiplier == 100,
            d.pipes_passed == 0,
    {
        GameDifficulty { speed_multiplier: 100, pipes_passed: 0 }
    }
}

/// Drives the bird's sprite frame, cycling `first_sprite_index ..=
/// last_sprite_index` on a repeating per-frame timer of
/// `frame_period_ms` milliseconds.
#[derive(Clone, Copy, Debug, PartialEq, Eq, Structural)]
pub struct AnimationConfig {
    pub first_sprite_index: usize,
    pub last_sprite_index: usize,
    pub fps: u8,
    pub frame_period_ms: u32,
    pub frame_timer_ms: u32,
    pub sprite_index: usize,
}

/// Ghost model of the bird.
pub struct BirdModel {
    pub y: int,
    pub velocity: int,
}

/// Ghost model of a pipe.
pub struct PipeModel {
    pub x: int,
    pub y: int,
    pub vx: int,
    pub scored: bool,
}

/// Ghost model of a label.
pub struct LabelModel {
    pub kind: LabelKind,
    pub value: int,
}

/// Ghost model of the sprite animation.
pub struct AnimModel {
    pub first: int,
    pub last: int,
    pub fps: int,
    pub period: int,
    pub elapsed: int,
    pub index: int,
}

impl View for Bird {
    type V = BirdModel;

    open spec fn view(&self) -> BirdModel {
        BirdModel { y: self.y as int, velocity: self.velocity as int }
    }
}

impl View for Pipe {
    type V = PipeModel;

    open spec fn view(&self) -> PipeModel {
        PipeModel { x: self.x as int, y: self.y as int, vx: self.vx as int, scored: self.scored }
    }
}

impl View for Label {
    type V = LabelModel;

    open spec fn view(&self) -> LabelModel {
        LabelModel { kind: self.kind, value: self.value as int }
    }
}

impl View for AnimationConfig {
    type V = AnimModel;

    open spec fn view(&self) -> AnimModel {
        AnimModel {
            first: self.first_sprite_index as int,
            last: self.last_sprite_index as int,
            fps: self.fps as int,
            period: self.frame_period_ms as int,
            elapsed: self.frame_timer_ms as int,
            index: self.sprite_index as int,
        }
    }
}

/// A healthy pipe: it scrolls at the spawn speed and sits inside the
/// band where pipes can ever stand — between the despawn threshold and
/// the spawn line, its center within reach of the gap formula.
pub open spec fn pipe_ok(p: PipeModel) -> bool {
    &&& p.vx == -(crate::PIPE_SPEED as int)
    &&& crate::PIPE_DESPAWN_X <= p.x <= crate::PIPE_SPAWN_X
    &&& -(crate::GAP_CENTER_LIMIT + crate::PIPE_OFFSET) <= p.y
        <= crate::GAP_CENTER_LIMIT + crate::PIPE_OFFSET
}

/// Pipes live in the pairs they were spawned in: two by two, each pair
/// sharing its x, its scroll speed and its scored flag. The mover keeps
/// or drops a pair together and the scoring window admits a pair
/// together, which is what keeps the raw score counter even at every
/// frame boundary.
pub open spec fn pipes_paired(ps: Seq<PipeModel>) -> bool
    decreases ps.len(),
{
    if ps.len() == 0 {
        true
    } else if ps.len() == 1 {
        false
    } else {
        &&& ps[0].x == ps[1].x
        &&& ps[0].vx == ps[1].vx
        &&& ps[0].scored == ps[1].scored
        &&& pipes_paired(ps.subrange(2, ps.len() as int))
    }
}

/// The models of a row of pipes.
pub open spec fn pipe_models(s: Seq<Pipe>) -> Seq<PipeModel> {
    s.map_values(|p: Pipe| p@)
}

/// The models of a row of labels.
pub open spec fn label_models(s: Seq<Label>) -> Seq<LabelModel> {
    s.map_values(|l: Label| l@)
}

} // verus!
