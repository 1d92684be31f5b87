//! The game state machine and per-frame scheduler. A `Sim` owns every
//! live entity and the session counters; `tick` runs one frame in the
//! fixed order input, physics, animation, mover, spawner, collision,
//! scoring, with the active state gating which of those run. The
//! whole frame is pinned down by the step functions `menu_step`,
//! `playing_step`, `paused_step` and `gameover_step`.
//!
//! Two deliberate choices: the spawn timer freezes outside the playing
//! state (resuming never fires a backlog of spawns), and a frame whose
//! pause input is pressed performs only the pause transition, freezing
//! the gameplay systems at once.

use vstd::prelude::*;
use crate::anim::{anim_after, anim_ok, execute_animations};
use crate::collision::{check_collisions, collision_of, hits_ground};
use crate::entities::{
    AnimationConfig, AnimModel, Bird, BirdModel, GameDifficulty, GameState, Input, Label,
    LabelKind, LabelModel, Pipe, PipeModel, label_models, pipe_models, pipe_ok, pipes_paired,
};
use crate::fixed::{lemma_mul_abs_bound, lemma_tdiv_ordered, lemma_tdiv_scale_bound, tdiv};
use crate::mover::{lemma_move_reap_len, lemma_move_reap_paired, move_reap, pipe_movement};
use crate::physics::{bird_after, bird_input, bird_movement, velocity_after};
use crate::score::{
    lemma_score_fold_paired, lemma_score_fold_props, multiplier_for, refresh_score_label,
    score_fold, set_score_labels, update_score,
};
use crate::spawner::{
    draw_gap_center, lemma_paired_append_pair, lemma_spawned_pair_ok, spawn_fires, spawn_pipes,
    spawned_pair, timer_after,
};
use crate::{
    BIRD_HALF_HEIGHT, CEILING_Y, DT_MAX_MS, FALL_LIMIT, GAP_CENTER_LIMIT, GROUND_Y, JUMP_VELOCITY,
    MULT_BASE, MULT_MAX, SPAWN_PERIOD_MS,
};

verus! {

/// Ghost model of a whole simulation.
#[verifier::ext_equal]
pub struct SimModel {
    pub state: GameState,
    pub bird: Option<BirdModel>,
    pub anim: Option<AnimModel>,
    pub pipes: Seq<PipeModel>,
    pub ground: bool,
    pub labels: Seq<LabelModel>,
    pub raw_score: int,
    pub pipes_passed: int,
    pub speed_multiplier: int,
    pub spawn_timer: int,
}

/// The simulation: the entity store (bird, pipes, ground, labels), the
/// session counters, and the active state. All systems mutate this one
/// struct; a renderer reads it between frames.
pub struct Sim {
    pub state: GameState,
    pub bird: Option<Bird>,
    pub anim: Option<AnimationConfig>,
    pub pipes: Vec<Pipe>,
    pub ground: bool,
    pub labels: Vec<Label>,
    pub raw_score: u32,
    pub difficulty: GameDifficulty,
    pub spawn_timer_ms: u32,
}

impl View for Sim {
    type V = SimModel;

    open spec fn view(&self) -> SimModel {
        SimModel {
            state: self.state,
            bird: match self.bird {
                Some(b) => Some(b@),
                None => None,
            },
            anim: match self.anim {
                Some(a) => Some(a@),
                None => None,
            },
            pipes: pipe_models(self.pipes@),
            ground: self.ground,
            labels: label_models(self.labels@),
            raw_score: self.raw_score as int,
            pipes_passed: self.difficulty.pipes_passed as int,
            speed_multiplier: self.difficulty.speed_multiplier as int,
            spawn_timer: self.spawn_timer_ms as int,
        }
    }
}

/// Bounds every bird of a live session keeps at a frame boundary: the
/// velocity never exceeds the jump impulse, and a bird falling faster
/// than `FALL_LIMIT` cannot have survived the previous frame's
/// collision pass, since even one millisecond at that speed falls from
/// the ceiling to below the ground line.
pub open spec fn session_bird_ok(b: BirdModel) -> bool {
    &&& FALL_LIMIT <= b.velocity <= JUMP_VELOCITY
    &&& GROUND_Y + BIRD_HALF_HEIGHT <= b.y <= CEILING_Y
}

/// The simulation's invariant, kept by every frame.
pub open spec fn wf(m: SimModel) -> bool {
    &&& m.speed_multiplier == multiplier_for(m.pipes_passed)
    &&& 0 <= m.raw_score
    &&& m.raw_score % 2 == 0
    &&& m.pipes_passed == m.raw_score / 2
    &&& 0 <= m.spawn_timer < SPAWN_PERIOD_MS
    &&& forall|i: int| 0 <= i < m.pipes.len() ==> pipe_ok(#[trigger] m.pipes[i])
    &&& pipes_paired(m.pipes)
    &&& (m.state == GameState::Menu ==> m.bird is None && m.anim is None && m.pipes.len() == 0
        && m.raw_score == 0 && !m.ground)
    &&& (m.state != GameState::Menu ==> m.bird is Some && m.anim is Some)
    &&& (match m.anim {
        Some(a) => anim_ok(a),
        None => true,
    })
    &&& (m.state == GameState::Playing || m.state == GameState::Paused ==> match m.bird {
        Some(b) => session_bird_ok(b),
        None => false,
    })
}

/// The simulation as the process starts: menu shown to nobody yet,
/// nothing spawned, counters zero.
pub open spec fn initial_sim() -> SimModel {
    SimModel {
        state: GameState::Menu,
        bird: None,
        anim: None,
        pipes: Seq::empty(),
        ground: false,
        labels: Seq::empty(),
        raw_score: 0,
        pipes_passed: 0,
        speed_multiplier: MULT_BASE as int,
        spawn_timer: 0,
    }
}

/// A menu frame: on start input the gameplay entities appear — bird at
/// rest at the origin, its sprite cycle, the ground — the menu prompt
/// is replaced by a zeroed score board, and play begins.
pub open spec fn menu_step(m: SimModel, inp: Input) -> SimModel {
    if inp.start {
        SimModel {
            state: GameState::Playing,
            bird: Some(BirdModel { y: 0, velocity: 0 }),
            anim: Some(
                AnimModel { first: 0, last: 3, fps: 8, period: 125, elapsed: 0, index: 0 },
            ),
            ground: true,
            labels: seq![LabelModel { kind: LabelKind::ScoreBoard, value: 0 }],
            ..m
        }
    } else {
        m
    }
}

/// Pausing mid-play: the overlay appears and everything else freezes.
pub open spec fn pause_applied(m: SimModel) -> SimModel {
    SimModel {
        state: GameState::Paused,
        labels: m.labels.push(LabelModel { kind: LabelKind::PauseOverlay, value: 0 }),
        ..m
    }
}

/// A playing frame without pause input: jump, integrate, animate, move
/// pipes, spawn on the timer, collide, score. A collision ends the
/// session at the frame boundary; scoring still settles first.
pub open spec fn playing_step(m: SimModel, inp: Input, dt: int, gap_center: int) -> SimModel {
    if inp.pause {
        pause_applied(m)
    } else {
        match (m.bird, m.anim) {
            (Some(b0), Some(a0)) => {
                let b1 = if inp.jump {
                    BirdModel { velocity: JUMP_VELOCITY as int, ..b0 }
                } else {
                    b0
                };
                let b2 = bird_after(b1, dt);
                let a2 = anim_after(a0, dt);
                let moved = move_reap(m.pipes, dt, m.speed_multiplier);
                let fired = spawn_fires(m.spawn_timer, dt);
                let ps2 = if fired {
                    moved + spawned_pair(gap_center)
                } else {
                    moved
                };
                let col = collision_of(b2, ps2);
                let sc = score_fold(ps2, m.raw_score, m.pipes_passed);
                SimModel {
                    state: if col is Some {
                        GameState::GameOver
                    } else {
                        GameState::Playing
                    },
                    bird: Some(b2),
                    anim: Some(a2),
                    pipes: sc.0,
                    ground: m.ground,
                    labels: if sc.1 != m.raw_score {
                        set_score_labels(m.labels, sc.1 / 2)
                    } else {
                        m.labels
                    },
                    raw_score: sc.1,
                    pipes_passed: sc.2,
                    speed_multiplier: multiplier_for(sc.2),
                    spawn_timer: timer_after(m.spawn_timer, dt),
                }
            },
            _ => m,
        }
    }
}

/// The labels left when the pause overlay comes down.
pub open spec fn labels_resumed(ls: Seq<LabelModel>) -> Seq<LabelModel>
    decreases ls.len(),
{
    if ls.len() == 0 {
        Seq::empty()
    } else {
        let rest = labels_resumed(ls.subrange(1, ls.len() as int));
        if ls[0].kind == LabelKind::PauseOverlay {
            rest
        } else {
            seq![ls[0]] + rest
        }
    }
}

/// Resuming from pause: the overlay comes down and play goes on with
/// every gameplay value frozen in place.
pub open spec fn resume_applied(m: SimModel) -> SimModel {
    SimModel { state: GameState::Playing, labels: labels_resumed(m.labels), ..m }
}

/// A paused frame: only the pause toggle acts.
pub open spec fn paused_step(m: SimModel, inp: Input) -> SimModel {
    if inp.pause {
        resume_applied(m)
    } else {
        m
    }
}

/// Is the game-over board already shown?
pub open spec fn has_gameover_label(ls: Seq<LabelModel>) -> bool {
    exists|i: int| 0 <= i < ls.len() && (#[trigger] ls[i]).kind == LabelKind::GameOverBoard
}

/// A game-over frame: the summary board appears once (never a second
/// copy), and restart input tears every gameplay entity down, resets
/// score and difficulty, and returns to the menu with its prompt as
/// the only label. The spawn timer keeps its frozen reading.
pub open spec fn gameover_applied(m: SimModel, restart: bool) -> SimModel {
    let shown = if has_gameover_label(m.labels) {
        m.labels
    } else {
        m.labels.push(LabelModel { kind: LabelKind::GameOverBoard, value: m.raw_score / 2 })
    };
    if restart {
        SimModel {
            state: GameState::Menu,
            bird: None,
            anim: None,
            pipes: Seq::empty(),
            ground: false,
            labels: seq![LabelModel { kind: LabelKind::MenuPrompt, value: 0 }],
            raw_score: 0,
            pipes_passed: 0,
            speed_multiplier: MULT_BASE as int,
            spawn_timer: m.spawn_timer,
        }
    } else {
        SimModel { labels: shown, ..m }
    }
}

/// A game-over frame: only the restart input acts.
pub open spec fn gameover_step(m: SimModel, inp: Input) -> SimModel {
    gameover_applied(m, inp.restart)
}

/// One frame of the whole machine: the active state picks the step.
/// The screenshot input never alters the simulation.
pub open spec fn tick_spec(m: SimModel, inp: Input, dt: int, gap_center: int) -> SimModel {
    match m.state {
        GameState::Menu => menu_step(m, inp),
        GameState::Playing => playing_step(m, inp, dt, gap_center),
        GameState::Paused => paused_step(m, inp),
        GameState::GameOver => gameover_step(m, inp),
    }
}

/// A bird that ends its frame faster-falling than `FALL_LIMIT` has
/// already fallen below the ground line, so the collision pass catches
/// it: a surviving bird keeps the session's velocity floor.
proof fn lemma_velocity_floor(b: BirdModel, dt: int)
    requires
        FALL_LIMIT <= b.velocity,
        b.y <= CEILING_Y,
        0 <= dt,
        !hits_ground(bird_after(b, dt).y),
    ensures
        FALL_LIMIT <= bird_after(b, dt).velocity,
{
    let v2 = velocity_after(b.velocity, dt);
    if dt > 0 && v2 < FALL_LIMIT {
        assert(v2 * dt <= v2) by (nonlinear_arith)
            requires
                v2 <= -1,
                dt >= 1,
        ;
        lemma_tdiv_ordered(v2 * dt, v2, 1000);
        vstd::arithmetic::div_mod::lemma_div_is_ordered(526_000_001, -v2, 1000);
        assert(tdiv(v2, 1000) <= -526_000);
        assert(bird_after(b, dt).y <= CEILING_Y - 526_000);
        assert(false);
    }
}

impl Sim {
    /// A fresh process: menu state, empty store, zeroed counters.
    pub fn new() -> (s: Sim)
        ensures
            s@ == initial_sim(),
            wf(s@),
    {
        let s = Sim {
            state: GameState::Menu,
            bird: None,
            anim: None,
            pipes: Vec::new(),
            ground: false,
            labels: Vec::new(),
            raw_score: 0,
            difficulty: GameDifficulty::default(),
            spawn_timer_ms: 0,
        };
        proof {
            assert(s@ =~= initial_sim());
        }
        s
    }

    /// Shows the menu prompt, once, as the process's first frame does.
    pub fn setup(&mut self)
        ensures
            final(self)@ == (SimModel {
                labels: old(self)@.labels.push(
                    LabelModel { kind: LabelKind::MenuPrompt, value: 0 },
                ),
                ..old(self)@
            }),
    {
        self.labels.push(Label { kind: LabelKind::MenuPrompt, value: 0 });
        proof {
            assert(self@ =~= SimModel {
                labels: old(self)@.labels.push(
                    LabelModel { kind: LabelKind::MenuPrompt, value: 0 },
                ),
                ..old(self)@
            });
        }
    }

    /// The menu frame: start input launches a session.
    pub fn menu_system(&mut self, inp: Input)
        requires
            wf(old(self)@),
            old(self).state == GameState::Menu,
        ensures
            final(self)@ == menu_step(old(self)@, inp),
            wf(final(self)@),
    {
        if inp.start {
            self.labels = vec![Label { kind: LabelKind::ScoreBoard, value: 0 }];
            self.bird = Some(Bird { y: 0, velocity: 0 });
            self.anim = Some(AnimationConfig::new(0, 3, 8));
            self.ground = true;
            self.state = GameState::Playing;
            proof {
                assert(self@.labels =~= menu_step(old(self)@, inp).labels);
                assert(self@ =~= menu_step(old(self)@, inp));
            }
        }
    }

    /// The pause toggle while playing: overlay up, state frozen.
    pub fn pause_input(&mut self, pause: bool)
        requires
            wf(old(self)@),
            old(self).state == GameState::Playing,
        ensures
            final(self)@ == if pause {
                pause_applied(old(self)@)
            } else {
                old(self)@
            },
            wf(final(self)@),
    {
        if pause {
            self.labels.push(Label { kind: LabelKind::PauseOverlay, value: 0 });
            self.state = GameState::Paused;
            proof {
                assert(self@.labels =~= pause_applied(old(self)@).labels);
                assert(self@ =~= pause_applied(old(self)@));
            }
        }
    }

    /// The pause toggle while paused: overlay down, play resumes with
    /// every gameplay value exactly where it froze.
    pub fn unpause_system(&mut self, pause: bool)
        requires
            wf(old(self)@),
            old(self).state == GameState::Paused,
        ensures
            final(self)@ == if pause {
                resume_applied(old(self)@)
            } else {
                old(self)@
            },
            wf(final(self)@),
    {
        if pause {
            let ghost all = label_models(self.labels@);
            let mut out: Vec<Label> = Vec::new();
            let mut i: usize = 0;
            proof {
                assert(all.subrange(0, all.len() as int) =~= all);
                assert(label_models(out@) + labels_resumed(all) =~= labels_resumed(all));
            }
            while i < self.labels.len()
                invariant
                    i <= self.labels.len(),
                    all == label_models(self.labels@),
                    all.len() == self.labels@.len(),
                    labels_resumed(all) == label_models(out@) + labels_resumed(
                        all.subrange(i as int, all.len() as int),
                    ),
                decreases self.labels.len() - i,
            {
                let l = self.labels[i];
                let ghost tail = all.subrange(i as int, all.len() as int);
                let ghost prev = out@;
                let ghost rest = labels_resumed(all.subrange(i as int + 1, all.len() as int));
                proof {
                    assert(tail[0] == all[i as int]);
                    assert(all[i as int] == l@);
                    assert(tail.subrange(1, tail.len() as int) =~= all.subrange(
                        i as int + 1,
                        all.len() as int,
                    ));
                }
                if !matches!(l.kind, LabelKind::PauseOverlay) {
                    out.push(l);
                    proof {
                        assert(label_models(out@) =~= label_models(prev) + seq![l@]);
                        assert(label_models(out@) + rest =~= label_models(prev) + (seq![l@]
                            + rest));
                    }
                }
                i = i + 1;
            }
            proof {
                assert(all.subrange(all.len() as int, all.len() as int)
                    =~= Seq::<LabelModel>::empty());
                assert(label_models(out@) + Seq::<LabelModel>::empty() =~= label_models(out@));
            }
            self.labels = out;
            self.state = GameState::Playing;
            proof {
                assert(self@ =~= resume_applied(old(self)@));
            }
        }
    }

    /// The game-over frame: shows the summary once; restart input
    /// resets the session and returns to the menu.
    pub fn game_over_system(&mut self, restart: bool)
        requires
            wf(old(self)@),
            old(self).state == GameState::GameOver,
        ensures
            final(self)@ == gameover_applied(old(self)@, restart),
            wf(final(self)@),
    {
        let ghost m0 = self@;
        let mut seen = false;
        let mut i: usize = 0;
        while i < self.labels.len()
            invariant
                i <= self.labels.len(),
                seen == exists|k: int|
                    0 <= k < i && (#[trigger] label_models(self.labels@)[k]).kind
                        == LabelKind::GameOverBoard,
            decreases self.labels.len() - i,
        {
            proof {
                assert(label_models(self.labels@)[i as int] == self.labels@[i as int]@);
            }
            if matches!(self.labels[i].kind, LabelKind::GameOverBoard) {
                seen = true;
                proof {
                    assert((label_models(self.labels@)[i as int]).kind
                        == LabelKind::GameOverBoard);
                }
            }
            i = i + 1;
        }
        assert(seen == has_gameover_label(m0.labels));
        if !seen {
            let shown = self.raw_score / 2;
            self.labels.push(Label { kind: LabelKind::GameOverBoard, value: shown });
            proof {
                assert(label_models(self.labels@) =~= m0.labels.push(
                    LabelModel { kind: LabelKind::GameOverBoard, value: m0.raw_score / 2 },
                ));
            }
        }
        if restart {
            self.bird = None;
            self.anim = None;
            self.pipes = Vec::new();
            self.ground = false;
            self.labels = vec![Label { kind: LabelKind::MenuPrompt, value: 0 }];
            self.raw_score = 0;
            self.difficulty = GameDifficulty::default();
            self.state = GameState::Menu;
            proof {
                assert(self@.labels =~= gameover_applied(m0, restart).labels);
                assert(self@.pipes =~= Seq::<PipeModel>::empty());
                assert(self@ =~= gameover_applied(m0, restart));
            }
        } else {
            proof {
                assert(self@ =~= gameover_applied(m0, restart));
            }
        }
    }

    /// One playing frame past the pause gate: the full gameplay
    /// pipeline in its fixed order.
    fn playing_frame(&mut self, inp: Input, dt: u32, gap_center: i64)
        requires
            wf(old(self)@),
            old(self).state == GameState::Playing,
            !inp.pause,
            dt <= DT_MAX_MS,
            -GAP_CENTER_LIMIT <= gap_center <= GAP_CENTER_LIMIT,
            old(self).raw_score + old(self).pipes@.len() + 2 <= u32::MAX,
        ensures
            final(self)@ == playing_step(old(self)@, inp, dt as int, gap_center as int),
            wf(final(self)@),
    {
        let ghost m0 = self@;
        let (mut b, mut a) = match (self.bird, self.anim) {
            (Some(b), Some(a)) => (b, a),
            _ => {
                return;
            },
        };
        bird_input(&mut b, inp.jump);
        let ghost b1 = b@;
        bird_movement(&mut b, dt);
        self.bird = Some(b);
        execute_animations(&mut a, dt);
        self.anim = Some(a);
        proof {
            assert(MULT_BASE <= self.difficulty.speed_multiplier <= MULT_MAX);
            lemma_move_reap_len(m0.pipes, dt as int, m0.speed_multiplier);
            assert forall|i: int| 0 <= i < self.pipes@.len() implies pipe_ok(
                #[trigger] self.pipes@[i]@,
            ) by {
                assert(pipe_models(self.pipes@)[i] == self.pipes@[i]@);
                assert(pipe_ok(m0.pipes[i]));
            }
        }
        pipe_movement(&mut self.pipes, dt, self.difficulty.speed_multiplier);
        let fired = spawn_pipes(&mut self.spawn_timer_ms, &mut self.pipes, dt, gap_center);
        let ghost ps2 = pipe_models(self.pipes@);
        proof {
            lemma_move_reap_paired(m0.pipes, dt as int, m0.speed_multiplier);
            if fired {
                lemma_spawned_pair_ok(gap_center as int);
                lemma_paired_append_pair(
                    move_reap(m0.pipes, dt as int, m0.speed_multiplier),
                    gap_center as int,
                );
                assert(ps2 =~= move_reap(m0.pipes, dt as int, m0.speed_multiplier)
                    + spawned_pair(gap_center as int));
            } else {
                assert(ps2 =~= move_reap(m0.pipes, dt as int, m0.speed_multiplier));
            }
            assert(pipes_paired(ps2));
            assert(forall|i: int| 0 <= i < ps2.len() ==> pipe_ok(#[trigger] ps2[i]));
            assert forall|i: int|
                0 <= i < self.pipes@.len() implies -1_000_000 <= (#[trigger] self.pipes@[i]).x
                <= 1_000_000 && -1_000_000 <= self.pipes@[i].y <= 1_000_000 by {
                assert(ps2[i] == self.pipes@[i]@);
                assert(pipe_ok(ps2[i]));
            }
        }
        proof {
            lemma_mul_abs_bound(b@.velocity, dt as int, 44_000_000_000, DT_MAX_MS as int);
            lemma_tdiv_scale_bound(b@.velocity * dt as int, 1000, 3_801_600_000_000_000);
        }
        let col = check_collisions(&b, &self.pipes);
        proof {
            lemma_score_fold_props(ps2, m0.raw_score, m0.pipes_passed);
            lemma_score_fold_paired(ps2, m0.raw_score, m0.pipes_passed);
        }
        let changed = update_score(&mut self.pipes, &mut self.raw_score, &mut self.difficulty);
        if changed {
            let shown = self.raw_score / 2;
            refresh_score_label(&mut self.labels, shown);
        }
        match col {
            Some(_) => {
                self.state = GameState::GameOver;
            },
            None => {
                proof {
                    lemma_velocity_floor(b1, dt as int);
                }
            },
        }
        proof {
            assert(self@ =~= playing_step(m0, inp, dt as int, gap_center as int));
        }
    }

    /// One frame of the whole machine from any state: dispatches to
    /// the active state's systems and returns with the invariant kept.
    pub fn tick(&mut self, inp: Input, dt: u32, gap_center: i64)
        requires
            wf(old(self)@),
            dt <= DT_MAX_MS,
            -GAP_CENTER_LIMIT <= gap_center <= GAP_CENTER_LIMIT,
            old(self).raw_score + old(self).pipes@.len() + 2 <= u32::MAX,
        ensures
            final(self)@ == tick_spec(old(self)@, inp, dt as int, gap_center as int),
            wf(final(self)@),
    {
        match self.state {
            GameState::Menu => self.menu_system(inp),
            GameState::Playing => {
                if inp.pause {
                    self.pause_input(true);
                } else {
                    self.playing_frame(inp, dt, gap_center);
                }
            },
            GameState::Paused => self.unpause_system(inp.pause),
            GameState::GameOver => self.game_over_system(inp.restart),
        }
        proof {
            assert(self@ =~= tick_spec(old(self)@, inp, dt as int, gap_center as int));
        }
    }

    /// One frame with the gap center drawn fresh from the process's
    /// entropy; everything else is the deterministic `tick`.
    pub fn tick_random(&mut self, inp: Input, dt: u32)
        requires
            wf(old(self)@),
            dt <= DT_MAX_MS,
            old(self).raw_score + old(self).pipes@.len() + 2 <= u32::MAX,
        ensures
            exists|g: int|
                -GAP_CENTER_LIMIT <= g < GAP_CENTER_LIMIT && final(self)@ == #[trigger] tick_spec(
                    old(self)@,
                    inp,
                    dt as int,
                    g,
                ),
            wf(final(self)@),
    {
        let g = draw_gap_center();
        self.tick(inp, dt, g);
        proof {
            assert(-GAP_CENTER_LIMIT <= g as int);
            assert((g as int) < GAP_CENTER_LIMIT);
            assert(self@ == tick_spec(old(self)@, inp, dt as int, g as int));
        }
    }
}

} // verus!
