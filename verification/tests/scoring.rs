use snake::game::{GameOutcome, TerminationReason};
use snake::scoring::{close_timer, start_timer, Game, HighScore, RunState, Score, Timer};
use snake::settings::{AudioSettings, GameSettings};

const SECOND: u64 = 1_000_000_000;

#[test]
fn the_score_counts_apples_only() {
    let mut score = Score::default();
    assert_eq!(score.score, 0);
    score.record(GameOutcome::Continue);
    score.record(GameOutcome::Terminated(TerminationReason::HitSelf));
    assert_eq!(score.score, 0);
    score.record(GameOutcome::Grew);
    score.record(GameOutcome::Grew);
    assert_eq!(score, Score { score: 2 });
}

#[test]
fn a_higher_score_is_the_new_best() {
    let mut best = HighScore { score: 3, time: 10 * SECOND };
    best.record(4, 50 * SECOND);
    assert_eq!(best, HighScore { score: 4, time: 50 * SECOND });
}

#[test]
fn the_same_score_wins_only_in_less_time() {
    let mut best = HighScore { score: 3, time: 10 * SECOND };
    best.record(3, 10 * SECOND);
    assert_eq!(best, HighScore { score: 3, time: 10 * SECOND });
    best.record(3, 11 * SECOND);
    assert_eq!(best, HighScore { score: 3, time: 10 * SECOND });
    best.record(3, 9 * SECOND);
    assert_eq!(best, HighScore { score: 3, time: 9 * SECOND });
    best.record(2, SECOND);
    assert_eq!(best, HighScore { score: 3, time: 9 * SECOND });
}

#[test]
fn the_first_run_without_apples_does_not_beat_the_empty_best() {
    let mut best = HighScore::default();
    best.record(0, 5 * SECOND);
    assert_eq!(best, HighScore { score: 0, time: 0 });
}

#[test]
fn closing_the_timer_records_the_run() {
    let mut timer = Timer::default();
    assert_eq!(timer, Timer { start: None, runtime: None });
    start_timer(&mut timer, 7 * SECOND);
    assert_eq!(timer, Timer { start: Some(7 * SECOND), runtime: None });
    let mut best = HighScore { score: 1, time: 100 * SECOND };
    close_timer(&mut timer, &Score { score: 5 }, &mut best, 19 * SECOND + 5);
    assert_eq!(timer, Timer { start: Some(7 * SECOND), runtime: Some(12 * SECOND + 5) });
    assert_eq!(best, HighScore { score: 5, time: 12 * SECOND + 5 });
}

#[test]
fn closing_the_timer_keeps_a_better_best() {
    let mut timer = Timer { start: Some(0), runtime: None };
    let mut best = HighScore { score: 9, time: SECOND };
    close_timer(&mut timer, &Score { score: 5 }, &mut best, 3 * SECOND);
    assert_eq!(timer.runtime, Some(3 * SECOND));
    assert_eq!(best, HighScore { score: 9, time: SECOND });
}

#[test]
fn a_clock_reading_before_the_start_counts_as_no_time() {
    let mut timer = Timer { start: Some(10 * SECOND), runtime: None };
    let mut best = HighScore { score: 2, time: SECOND };
    close_timer(&mut timer, &Score { score: 2 }, &mut best, 4 * SECOND);
    assert_eq!(timer.runtime, Some(0));
    assert_eq!(best, HighScore { score: 2, time: 0 });
}

#[test]
fn starting_the_timer_again_forgets_the_last_run() {
    let mut timer = Timer { start: Some(SECOND), runtime: Some(4 * SECOND) };
    start_timer(&mut timer, 20 * SECOND);
    assert_eq!(timer, Timer { start: Some(20 * SECOND), runtime: None });
}

#[test]
fn the_timer_shows_whole_seconds() {
    assert_eq!(Timer::default().seconds(5 * SECOND), 0);
    let running = Timer { start: Some(2 * SECOND), runtime: None };
    assert_eq!(running.seconds(5 * SECOND + 999_999_999), 3);
    assert_eq!(running.seconds(SECOND), 0);
    let finished = Timer { start: Some(2 * SECOND), runtime: Some(42 * SECOND + 1) };
    assert_eq!(finished.seconds(1000 * SECOND), 42);
}

#[test]
fn plain_state_starts_at_zero() {
    assert_eq!(Game::default(), Game { score: 0, score_best: 0 });
    assert_ne!(RunState::Playing, RunState::GameOver);
    assert_ne!(RunState::GameOver, RunState::Menu);
}

#[test]
fn settings_start_with_sound_and_the_ninth_skin() {
    assert_eq!(GameSettings::default(), GameSettings { audio: AudioSettings::ON, snake_index: 8 });
}

#[test]
fn toggling_the_sound_is_heard_only_while_it_is_on() {
    let mut settings = GameSettings::default();
    assert!(settings.toggle_audio());
    assert_eq!(settings.audio, AudioSettings::OFF);
    assert!(!settings.audio.checked());
    assert!(!settings.toggle_audio());
    assert_eq!(settings.audio, AudioSettings::ON);
    assert!(settings.audio.checked());
    assert_eq!(settings.snake_index, 8);
    assert_eq!(AudioSettings::ON.toggled(), AudioSettings::OFF);
    assert_eq!(AudioSettings::OFF.toggled(), AudioSettings::ON);
}

#[test]
fn picking_a_skin_keeps_the_sound() {
    let mut settings = GameSettings { audio: AudioSettings::OFF, snake_index: 8 };
    settings.select_snake(12);
    assert_eq!(settings, GameSettings { audio: AudioSettings::OFF, snake_index: 12 });
}
