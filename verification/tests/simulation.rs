//! End-to-end and per-system tests of the simulation, in milli-units:
//! 1000 milli-units are one world unit, velocities are milli-units per
//! second, frame deltas are milliseconds, multipliers are hundredths.

use rlappy::anim::execute_animations;
use rlappy::collision::check_collisions;
use rlappy::entities::{
    AnimationConfig, Bird, CollisionKind, GameDifficulty, GameState, Input, Label, LabelKind, Pipe,
};
use rlappy::mover::pipe_movement;
use rlappy::physics::{bird_input, bird_movement};
use rlappy::score::{compute_multiplier, refresh_score_label, update_score};
use rlappy::sim::Sim;
use rlappy::spawner::spawn_pipes;
use rlappy::{BIRD_X, JUMP_VELOCITY};

fn idle() -> Input {
    Input { start: false, jump: false, pause: false, restart: false, screenshot: false }
}

fn playing_sim() -> Sim {
    let mut sim = Sim::new();
    sim.setup();
    sim.tick(Input { start: true, ..idle() }, 16, 0);
    assert_eq!(sim.state, GameState::Playing);
    sim
}

#[test]
fn gravity_lowers_velocity_monotonically() {
    let mut bird = Bird { y: 0, velocity: 0 };
    let mut last = bird.velocity;
    for _ in 0..5 {
        bird_movement(&mut bird, 100);
        assert!(bird.velocity < last);
        last = bird.velocity;
    }
    assert_eq!(bird.velocity, -250_000);
}

#[test]
fn jump_overwrites_any_prior_velocity() {
    let mut bird = Bird { y: 0, velocity: -987_654 };
    bird_input(&mut bird, true);
    assert_eq!(bird.velocity, JUMP_VELOCITY);
    bird.velocity = 250_000;
    bird_input(&mut bird, true);
    assert_eq!(bird.velocity, JUMP_VELOCITY);
    bird_input(&mut bird, false);
    assert_eq!(bird.velocity, JUMP_VELOCITY);
}

#[test]
fn ground_rule_wins_over_pipe_overlap() {
    let bird = Bird { y: -240_000, velocity: 0 };
    let pipes = vec![Pipe { x: BIRD_X, y: -240_000, vx: -150_000, scored: false }];
    assert_eq!(check_collisions(&bird, &pipes), Some(CollisionKind::Ground));
}

#[test]
fn ceiling_rule_wins_over_pipe_overlap() {
    let bird = Bird { y: 310_000, velocity: 0 };
    let pipes = vec![Pipe { x: BIRD_X, y: 310_000, vx: -150_000, scored: false }];
    assert_eq!(check_collisions(&bird, &pipes), Some(CollisionKind::Ceiling));
}

#[test]
fn pipe_overlap_is_reported_last() {
    let bird = Bird { y: 0, velocity: 0 };
    let pipes = vec![Pipe { x: -80_000, y: 0, vx: -150_000, scored: false }];
    assert_eq!(check_collisions(&bird, &pipes), Some(CollisionKind::PipeHit));
    let clear = vec![Pipe { x: 200_000, y: 0, vx: -150_000, scored: false }];
    assert_eq!(check_collisions(&bird, &clear), None);
}

#[test]
fn collision_box_is_exclusive_at_its_edge() {
    let bird = Bird { y: 0, velocity: 0 };
    let at_edge = vec![Pipe { x: BIRD_X + 45_000, y: 0, vx: -150_000, scored: false }];
    assert_eq!(check_collisions(&bird, &at_edge), None);
    let inside = vec![Pipe { x: BIRD_X + 44_999, y: 0, vx: -150_000, scored: false }];
    assert_eq!(check_collisions(&bird, &inside), Some(CollisionKind::PipeHit));
}

#[test]
fn lingering_pipe_scores_exactly_once() {
    let mut pipes = vec![Pipe { x: -98_000, y: 0, vx: -150_000, scored: false }];
    let mut raw: u32 = 0;
    let mut diff = GameDifficulty::default();
    let changed = update_score(&mut pipes, &mut raw, &mut diff);
    assert!(changed);
    assert_eq!(raw, 1);
    assert!(pipes[0].scored);
    let changed_again = update_score(&mut pipes, &mut raw, &mut diff);
    assert!(!changed_again);
    assert_eq!(raw, 1);
}

#[test]
fn scoring_window_is_half_open() {
    let mut raw: u32 = 0;
    let mut diff = GameDifficulty::default();
    let mut at_bird = vec![Pipe { x: BIRD_X, y: 0, vx: -150_000, scored: false }];
    assert!(update_score(&mut at_bird, &mut raw, &mut diff));
    assert_eq!(raw, 1);
    let mut at_end = vec![Pipe { x: BIRD_X + 5_000, y: 0, vx: -150_000, scored: false }];
    assert!(!update_score(&mut at_end, &mut raw, &mut diff));
    assert_eq!(raw, 1);
}

#[test]
fn multiplier_schedule_and_cap() {
    assert_eq!(compute_multiplier(0), 100);
    assert_eq!(compute_multiplier(10), 150);
    assert_eq!(compute_multiplier(30), 250);
    assert_eq!(compute_multiplier(100), 250);
}

#[test]
fn completed_gap_raises_difficulty() {
    let mut pipes = vec![Pipe { x: -97_000, y: 0, vx: -150_000, scored: false }];
    let mut raw: u32 = 19;
    let mut diff = GameDifficulty { speed_multiplier: 145, pipes_passed: 9 };
    assert!(update_score(&mut pipes, &mut raw, &mut diff));
    assert_eq!(raw, 20);
    assert_eq!(diff.pipes_passed, 10);
    assert_eq!(diff.speed_multiplier, 150);
}

#[test]
fn odd_raw_count_leaves_difficulty_alone() {
    let mut pipes = vec![Pipe { x: -97_000, y: 0, vx: -150_000, scored: false }];
    let mut raw: u32 = 20;
    let mut diff = GameDifficulty { speed_multiplier: 150, pipes_passed: 10 };
    assert!(update_score(&mut pipes, &mut raw, &mut diff));
    assert_eq!(raw, 21);
    assert_eq!(diff.pipes_passed, 10);
    assert_eq!(diff.speed_multiplier, 150);
}

#[test]
fn start_then_one_tenth_second_frame() {
    let mut sim = Sim::new();
    sim.setup();
    assert_eq!(sim.labels, vec![Label { kind: LabelKind::MenuPrompt, value: 0 }]);
    sim.tick(Input { start: true, ..idle() }, 16, 0);
    assert_eq!(sim.state, GameState::Playing);
    assert_eq!(BIRD_X, -100_000);
    let bird = sim.bird.unwrap();
    assert_eq!(bird.y, 0);
    assert_eq!(bird.velocity, 0);
    assert!(sim.ground);
    sim.tick(idle(), 100, 0);
    let bird = sim.bird.unwrap();
    assert_eq!(bird.velocity, -50_000);
    assert_eq!(bird.y, -5_000);
    assert_eq!(sim.state, GameState::Playing);
}

#[test]
fn spawner_fires_exactly_once_at_its_period() {
    let mut timer: u32 = 0;
    let mut pipes: Vec<Pipe> = Vec::new();
    let fired = spawn_pipes(&mut timer, &mut pipes, 2000, 42_000);
    assert!(fired);
    assert_eq!(timer, 0);
    assert_eq!(
        pipes,
        vec![
            Pipe { x: 500_000, y: 342_000, vx: -150_000, scored: false },
            Pipe { x: 500_000, y: -258_000, vx: -150_000, scored: false },
        ]
    );
}

#[test]
fn spawner_accumulates_across_short_frames() {
    let mut timer: u32 = 0;
    let mut pipes: Vec<Pipe> = Vec::new();
    assert!(!spawn_pipes(&mut timer, &mut pipes, 1500, 0));
    assert_eq!(timer, 1500);
    assert!(pipes.is_empty());
    assert!(spawn_pipes(&mut timer, &mut pipes, 600, 0));
    assert_eq!(timer, 100);
    assert_eq!(pipes.len(), 2);
}

#[test]
fn mover_scales_with_difficulty_and_reaps() {
    let mut pipes = vec![
        Pipe { x: 0, y: 0, vx: -150_000, scored: false },
        Pipe { x: -499_000, y: 0, vx: -150_000, scored: false },
    ];
    pipe_movement(&mut pipes, 1000, 100);
    assert_eq!(pipes, vec![Pipe { x: -150_000, y: 0, vx: -150_000, scored: false }]);
    let mut fast = vec![Pipe { x: 0, y: 0, vx: -150_000, scored: false }];
    pipe_movement(&mut fast, 1000, 250);
    assert_eq!(fast[0].x, -375_000);
}

#[test]
fn pause_freezes_gameplay_and_resumes_in_place() {
    let mut sim = playing_sim();
    sim.tick(Input { jump: true, ..idle() }, 100, 0);
    let frozen_bird = sim.bird.unwrap();
    let frozen_timer = sim.spawn_timer_ms;
    sim.tick(Input { pause: true, ..idle() }, 16, 0);
    assert_eq!(sim.state, GameState::Paused);
    assert!(sim.labels.iter().any(|l| l.kind == LabelKind::PauseOverlay));
    sim.tick(idle(), 5000, 0);
    assert_eq!(sim.bird.unwrap(), frozen_bird);
    assert_eq!(sim.spawn_timer_ms, frozen_timer);
    assert!(sim.pipes.is_empty());
    sim.tick(Input { pause: true, ..idle() }, 16, 0);
    assert_eq!(sim.state, GameState::Playing);
    assert!(sim.labels.iter().all(|l| l.kind != LabelKind::PauseOverlay));
    assert_eq!(sim.bird.unwrap(), frozen_bird);
}

#[test]
fn game_over_board_appears_exactly_once() {
    let mut sim = playing_sim();
    sim.raw_score = 6;
    sim.difficulty = GameDifficulty { speed_multiplier: 115, pipes_passed: 3 };
    sim.state = GameState::GameOver;
    sim.tick(idle(), 16, 0);
    sim.tick(idle(), 16, 0);
    let boards: Vec<&Label> =
        sim.labels.iter().filter(|l| l.kind == LabelKind::GameOverBoard).collect();
    assert_eq!(boards.len(), 1);
    assert_eq!(boards[0].value, 3);
}

#[test]
fn restart_resets_score_difficulty_and_labels() {
    let mut sim = playing_sim();
    sim.raw_score = 6;
    sim.difficulty = GameDifficulty { speed_multiplier: 115, pipes_passed: 3 };
    sim.pipes = vec![Pipe { x: 100_000, y: 0, vx: -150_000, scored: true }];
    sim.state = GameState::GameOver;
    sim.tick(Input { restart: true, ..idle() }, 16, 0);
    assert_eq!(sim.state, GameState::Menu);
    assert_eq!(sim.raw_score, 0);
    assert_eq!(sim.difficulty.pipes_passed, 0);
    assert_eq!(sim.difficulty.speed_multiplier, 100);
    assert!(sim.bird.is_none());
    assert!(sim.pipes.is_empty());
    assert!(!sim.ground);
    assert_eq!(sim.labels, vec![Label { kind: LabelKind::MenuPrompt, value: 0 }]);
}

#[test]
fn displayed_score_is_half_the_raw_counter() {
    let mut sim = playing_sim();
    sim.pipes = vec![
        Pipe { x: -98_000, y: 300_000, vx: -150_000, scored: false },
        Pipe { x: -98_000, y: -300_000, vx: -150_000, scored: false },
    ];
    sim.tick(idle(), 0, 0);
    assert_eq!(sim.state, GameState::Playing);
    assert_eq!(sim.raw_score, 2);
    assert_eq!(sim.difficulty.pipes_passed, 1);
    assert_eq!(sim.difficulty.speed_multiplier, 105);
    let board: Vec<&Label> =
        sim.labels.iter().filter(|l| l.kind == LabelKind::ScoreBoard).collect();
    assert_eq!(board.len(), 1);
    assert_eq!(board[0].value, 1);
}

#[test]
fn pair_crossing_the_window_scores_once_across_frames() {
    let mut sim = playing_sim();
    sim.pipes = vec![
        Pipe { x: -95_000, y: 300_000, vx: -150_000, scored: false },
        Pipe { x: -95_000, y: -300_000, vx: -150_000, scored: false },
    ];
    // A 16 ms frame at multiplier 1.0 slides a pipe by 2400
    // milli-units (2520 once the scored gap raises the multiplier to
    // 1.05), so the pair sits in the window for two frames.
    sim.tick(idle(), 16, 0);
    assert_eq!(sim.pipes[0].x, -97_400);
    assert_eq!(sim.raw_score, 2);
    sim.tick(idle(), 16, 0);
    assert_eq!(sim.pipes[0].x, -99_920);
    assert_eq!(sim.raw_score, 2);
    sim.tick(idle(), 16, 0);
    assert_eq!(sim.raw_score, 2);
    assert_eq!(sim.difficulty.pipes_passed, 1);
}

#[test]
fn missing_score_board_is_tolerated() {
    let mut labels: Vec<Label> = Vec::new();
    refresh_score_label(&mut labels, 5);
    assert!(labels.is_empty());
}

#[test]
fn random_spawn_stays_in_the_drawn_range() {
    for _ in 0..50 {
        let mut sim = playing_sim();
        sim.tick_random(Input { jump: true, ..idle() }, 2000);
        assert_eq!(sim.pipes.len(), 2);
        let top = sim.pipes[0];
        let bottom = sim.pipes[1];
        assert_eq!(top.x, 500_000);
        assert_eq!(bottom.x, 500_000);
        assert_eq!(top.y - bottom.y, 600_000);
        let center = top.y - 300_000;
        assert!((-150_000..150_000).contains(&center));
    }
}

#[test]
fn sprite_cycle_wraps_at_its_frame_rate() {
    assert_eq!(AnimationConfig::timer_from_fps(8), 125);
    let mut anim = AnimationConfig::new(0, 3, 8);
    assert_eq!(anim.sprite_index, 0);
    execute_animations(&mut anim, 100);
    assert_eq!(anim.sprite_index, 0);
    assert_eq!(anim.frame_timer_ms, 100);
    execute_animations(&mut anim, 25);
    assert_eq!(anim.sprite_index, 1);
    assert_eq!(anim.frame_timer_ms, 0);
    execute_animations(&mut anim, 125);
    execute_animations(&mut anim, 125);
    assert_eq!(anim.sprite_index, 3);
    execute_animations(&mut anim, 125);
    assert_eq!(anim.sprite_index, 0);
}

#[test]
fn inputs_out_of_state_are_ignored() {
    let mut sim = Sim::new();
    sim.setup();
    sim.tick(Input { jump: true, restart: true, pause: true, ..idle() }, 100, 0);
    assert_eq!(sim.state, GameState::Menu);
    assert!(sim.bird.is_none());
    let mut playing = playing_sim();
    playing.tick(Input { start: true, screenshot: true, ..idle() }, 0, 0);
    assert_eq!(playing.state, GameState::Playing);
}
