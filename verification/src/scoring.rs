//! Scores, the best run so far, and the timer of a run. Times are whole
//! nanoseconds on a clock that never runs backwards.

use crate::game::GameOutcome;
use vstd::prelude::*;

verus! {

/// The states between which the program moves.
#[derive(Debug, Clone, Copy, PartialEq, Eq, Hash, Structural)]
pub enum RunState {
    Playing,
    GameOver,
    Menu,
}

/// The score of the game in progress beside the best score so far.
#[derive(Debug, Clone, Copy, PartialEq, Eq, Structural)]
pub struct Game {
    pub score: u32,
    pub score_best: u32,
}

impl Default for Game {
    fn default() -> (game: Game)
        ensures
            game.score == 0,
            game.score_best == 0,
    {
        Game { score: 0, score_best: 0 }
    }
}

/// The apples eaten in the game in progress.
#[derive(Debug, Clone, Copy, PartialEq, Eq, Structural)]
pub struct Score {
    pub score: u32,
}

impl Default for Score {
    fn default() -> (score: Score)
        ensures
            score.score == 0,
    {
        Score { score: 0 }
    }
}

/// The best run so far: its score and how long it took.
#[derive(Debug, Clone, Copy, PartialEq, Eq, Structural)]
pub struct HighScore {
    pub score: u32,
    pub time: u64,
}

impl Default for HighScore {
    fn default() -> (best: HighScore)
        ensures
            best.score == 0,
            best.time == 0,
    {
        HighScore { score: 0, time: 0 }
    }
}

/// When the run in progress began, and how long the last finished run took.
#[derive(Debug, Clone, Copy, PartialEq, Eq)]
pub struct Timer {
    pub start: Option<u64>,
    pub runtime: Option<u64>,
}

impl Default for Timer {
    fn default() -> (timer: Timer)
        ensures
            timer.start is None,
            timer.runtime is None,
    {
        Timer { start: None, runtime: None }
    }
}

/// The time from `start` to `now`; nothing if `now` is the earlier.
pub open spec fn elapsed(start: u64, now: u64) -> u64 {
    if now >= start {
        (now - start) as u64
    } else {
        0
    }
}

/// A run with this score and time beats the best so far: its score is
/// higher, or the same in less time.
pub open spec fn beats(score: u32, time: u64, best: HighScore) -> bool {
    score > best.score || (score == best.score && time < best.time)
}

impl Score {
    /// Counts the apple of a tick on which the snake grew.
    pub fn record(&mut self, outcome: GameOutcome)
        requires
            outcome == GameOutcome::Grew ==> old(self).score < u32::MAX,
        ensures
            final(self).score == if outcome == GameOutcome::Grew {
                old(self).score + 1
            } else {
                old(self).score as int
            },
    {
        if let GameOutcome::Grew = outcome {
            self.score = self.score + 1;
        }
    }
}

impl HighScore {
    /// Takes over the run if it beats the best so far.
    pub fn record(&mut self, score: u32, time: u64)
        ensures
            *final(self) == if beats(score, time, *old(self)) {
                (HighScore { score, time })
            } else {
                *old(self)
            },
    {
        if score > self.score || (score == self.score && time < self.time) {
            self.score = score;
            self.time = time;
        }
    }
}

impl Timer {
    /// The whole seconds to show for the run: those of the finished run if
    /// one is recorded, else those since the start of the run in progress,
    /// else none.
    pub fn seconds(&self, now: u64) -> (seconds: u64)
        ensures
            seconds == match (self.runtime, self.start) {
                (Some(runtime), _) => runtime / 1_000_000_000,
                (None, Some(start)) => elapsed(start, now) / 1_000_000_000,
                (None, None) => 0,
            },
    {
        match self.runtime {
            Some(runtime) => runtime / 1_000_000_000,
            None => match self.start {
                Some(start) => if now >= start {
                    (now - start) / 1_000_000_000
                } else {
                    0
                },
                None => 0,
            },
        }
    }
}

/// Starts the timer of a new run at `now`.
pub fn start_timer(timer: &mut Timer, now: u64)
    ensures
        final(timer).start == Some(now),
        final(timer).runtime is None,
{
    timer.start = Some(now);
    timer.runtime = None;
}

/// Stops the timer of a run at `now`: records how long the run took, and
/// makes it the best run if it beats the one so far. The timer must have
/// been started.
pub fn close_timer(timer: &mut Timer, score: &Score, high_score: &mut HighScore, now: u64)
    requires
        old(timer).start is Some,
    ensures
        final(timer).start == old(timer).start,
        final(timer).runtime == Some(elapsed(old(timer).start->0, now)),
        *final(high_score) == if beats(
            score.score,
            elapsed(old(timer).start->0, now),
            *old(high_score),
        ) {
            (HighScore { score: score.score, time: elapsed(old(timer).start->0, now) })
        } else {
            *old(high_score)
        },
{
    let run = match timer.start {
        Some(start) => if now >= start {
            now - start
        } else {
            0
        },
        None => 0,
    };
    timer.runtime = Some(run);
    high_score.record(score.score, run);
}

} // verus!
