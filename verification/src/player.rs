//! The player's ship and the score.

use vstd::prelude::*;
use crate::entities::{MAX_BOMBS, MAX_LIVES, PLAYER_SPEED, PLAYER_START_X, PLAYER_W, SCREEN_W};
use crate::difficulty::{progress, progress_of};

verus! {

/// Ticks during which the ship cannot be hit again after a hit.
pub const INVINCIBLE_TICKS: u32 = 20;

/// Points for destroying an obstacle.
pub const SCORE_HIT: u32 = 2;

/// Points for an obstacle that fell past the bottom of the screen.
pub const SCORE_DODGE: u32 = 1;

/// The player's ship: where it is, what it has left, and for how long it is
/// still safe after the last hit.
#[derive(Clone, Copy, Debug, PartialEq, Eq, Structural)]
pub struct Player {
    pub x: i32,
    pub lives: u8,
    pub bombs: u8,
    pub invincible: u32,
}

/// Where a ship at `x` is after one tick with the given directions held:
/// left is applied first, then right, each stopping at the edge of the
/// screen.
pub open spec fn steered(x: int, left: bool, right: bool) -> int {
    let x1 = if left {
        if x - PLAYER_SPEED > 0 {
            x - PLAYER_SPEED
        } else {
            0
        }
    } else {
        x
    };
    if right {
        if x1 + PLAYER_SPEED < SCREEN_W - PLAYER_W {
            x1 + PLAYER_SPEED
        } else {
            SCREEN_W - PLAYER_W
        }
    } else {
        x1
    }
}

impl Player {
    /// The ship is on the screen, and lives, bombs and the safe window are
    /// within their limits.
    pub open spec fn wf(&self) -> bool {
        &&& 0 <= self.x <= SCREEN_W - PLAYER_W
        &&& self.lives <= MAX_LIVES
        &&& self.bombs <= MAX_BOMBS
        &&& self.invincible <= INVINCIBLE_TICKS
    }

    /// The ship at the start of a game: in the middle, with all lives and
    /// bombs.
    pub open spec fn fresh() -> Player {
        Player { x: PLAYER_START_X, lives: MAX_LIVES, bombs: MAX_BOMBS, invincible: 0 }
    }

    /// The ship at the start of a game.
    pub fn new() -> (p: Player)
        ensures
            p == Player::fresh(),
            p.wf(),
            2 * p.x + PLAYER_W == SCREEN_W,
    {
        Player { x: PLAYER_START_X, lives: MAX_LIVES, bombs: MAX_BOMBS, invincible: 0 }
    }

    /// Moves the ship for one tick.
    pub fn steer(&mut self, left: bool, right: bool)
        requires
            old(self).wf(),
        ensures
            final(self).x == steered(old(self).x as int, left, right),
            final(self).lives == old(self).lives,
            final(self).bombs == old(self).bombs,
            final(self).invincible == old(self).invincible,
            final(self).wf(),
    {
        if left {
            self.x = if self.x - PLAYER_SPEED > 0 {
                self.x - PLAYER_SPEED
            } else {
                0
            };
        }
        if right {
            self.x = if self.x + PLAYER_SPEED < SCREEN_W - PLAYER_W {
                self.x + PLAYER_SPEED
            } else {
                SCREEN_W - PLAYER_W
            };
        }
    }
}

/// The score of the running game, the baseline from which the difficulty is
/// measured, and the best score since power-on.
#[derive(Clone, Copy, Debug, PartialEq, Eq, Structural)]
pub struct ScoreState {
    pub score: u32,
    pub speed_base_score: u32,
    pub high_score: u32,
}

/// A score after `points` more: it stops at the largest value that fits.
pub open spec fn awarded(score: u32, points: int) -> u32 {
    if score + points <= u32::MAX {
        (score + points) as u32
    } else {
        u32::MAX
    }
}

impl ScoreState {
    /// The baseline never exceeds the score, so progress is never negative.
    pub open spec fn wf(&self) -> bool {
        self.speed_base_score <= self.score
    }

    /// The progress that drives the difficulty.
    pub open spec fn progress(&self) -> int {
        progress_of(self.score, self.speed_base_score)
    }

    /// No score yet and no best score.
    pub fn new() -> (s: ScoreState)
        ensures
            s == (ScoreState { score: 0, speed_base_score: 0, high_score: 0 }),
            s.wf(),
    {
        ScoreState { score: 0, speed_base_score: 0, high_score: 0 }
    }

    /// Adds points to the score.
    pub fn award(&mut self, points: u32)
        ensures
            final(self).score == awarded(old(self).score, points as int),
            final(self).score >= old(self).score,
            final(self).speed_base_score == old(self).speed_base_score,
            final(self).high_score == old(self).high_score,
            old(self).wf() ==> final(self).wf(),
    {
        self.score = if self.score <= u32::MAX - points {
            self.score + points
        } else {
            u32::MAX
        };
    }

    /// The progress made since the baseline.
    pub fn current_progress(&self) -> (r: u32)
        ensures
            r == self.progress(),
    {
        progress(self.score, self.speed_base_score)
    }

    /// Moves the baseline up to the score, which takes the difficulty back to
    /// its base level.
    pub fn reset_baseline(&mut self)
        ensures
            *final(self) == (ScoreState { speed_base_score: old(self).score, ..*old(self) }),
            final(self).wf(),
            final(self).progress() == 0,
    {
        self.speed_base_score = self.score;
    }

    /// Starts a new game: score and baseline go back to zero, the best score
    /// stays.
    pub fn restart(&mut self)
        ensures
            *final(self) == (ScoreState { score: 0, speed_base_score: 0, ..*old(self) }),
            final(self).wf(),
    {
        self.score = 0;
        self.speed_base_score = 0;
    }

    /// Takes the score as the best score if it is higher.
    pub fn capture_high_score(&mut self)
        ensures
            *final(self) == (ScoreState {
                high_score: if old(self).score > old(self).high_score {
                    old(self).score
                } else {
                    old(self).high_score
                },
                ..*old(self)
            }),
            final(self).high_score >= old(self).high_score,
            final(self).high_score >= final(self).score,
            old(self).wf() ==> final(self).wf(),
    {
        if self.score > self.high_score {
            self.high_score = self.score;
        }
    }
}

/// A score never decreases when points are added, whatever the points.
pub proof fn lemma_award_monotone(score: u32, points: int)
    requires
        points >= 0,
    ensures
        awarded(score, points) >= score,
{
}

} // verus!
