//! Difficulty scaling: how fast obstacles fall and how often they spawn, as
//! functions of the progress made since the difficulty baseline.

use vstd::prelude::*;

verus! {

/// Fall speed at the start of a game, in pixels per tick.
pub const INITIAL_SPEED: i32 = 2;

/// Largest fall speed.
pub const MAX_SPEED: i32 = 6;

/// Points of progress that raise the difficulty by one level.
pub const LEVEL_POINTS: u32 = 10;

/// Ticks between two spawns at the start of a game.
pub const BASE_INTERVAL: u32 = 30;

/// Ticks that each level takes off the spawn interval.
pub const INTERVAL_STEP: u32 = 5;

/// Least number of ticks between two spawns.
pub const MIN_INTERVAL: u32 = 10;

/// Progress is the score gained since the baseline.
pub open spec fn progress_of(score: u32, baseline: u32) -> int {
    if score >= baseline {
        score - baseline
    } else {
        0
    }
}

/// Obstacles fall `min(6, 2 + progress / 10)` pixels per tick, and stand
/// still while the freeze is on.
pub open spec fn speed_at(progress: int, frozen: bool) -> int {
    if frozen {
        0
    } else if INITIAL_SPEED + progress / (LEVEL_POINTS as int) < MAX_SPEED {
        INITIAL_SPEED + progress / (LEVEL_POINTS as int)
    } else {
        MAX_SPEED as int
    }
}

/// A new obstacle is due every `max(10, 30 - (progress / 10) * 5)` ticks.
pub open spec fn interval_at(progress: int) -> int {
    if BASE_INTERVAL - (progress / (LEVEL_POINTS as int)) * INTERVAL_STEP > MIN_INTERVAL {
        BASE_INTERVAL - (progress / (LEVEL_POINTS as int)) * INTERVAL_STEP
    } else {
        MIN_INTERVAL as int
    }
}

/// The progress that a score and a baseline give. The baseline never exceeds
/// the score in a game; if it did, the progress would be zero.
pub fn progress(score: u32, baseline: u32) -> (r: u32)
    ensures
        r == progress_of(score, baseline),
{
    if score >= baseline {
        score - baseline
    } else {
        0
    }
}

/// The fall speed of obstacles at a progress.
pub fn fall_speed(progress: u32, frozen: bool) -> (r: i32)
    ensures
        r == speed_at(progress as int, frozen),
        0 <= r <= MAX_SPEED,
        !frozen ==> r >= INITIAL_SPEED,
{
    if frozen {
        return 0;
    }
    let level: u32 = progress / LEVEL_POINTS;
    if level >= 4 {
        MAX_SPEED
    } else {
        INITIAL_SPEED + level as i32
    }
}

/// The number of ticks between two obstacle spawns at a progress.
pub fn spawn_interval(progress: u32) -> (r: u32)
    ensures
        r == interval_at(progress as int),
        MIN_INTERVAL <= r <= BASE_INTERVAL,
{
    let level: u32 = progress / LEVEL_POINTS;
    if level >= 4 {
        MIN_INTERVAL
    } else {
        BASE_INTERVAL - level * INTERVAL_STEP
    }
}

/// Difficulty never eases while progress grows: the speed does not fall and
/// the interval does not grow.
pub proof fn lemma_difficulty_monotone(p: int, q: int)
    requires
        0 <= p <= q,
    ensures
        speed_at(p, false) <= speed_at(q, false),
        interval_at(p) >= interval_at(q),
{
    assert(p / 10 <= q / 10);
    assert((p / 10) * 5 <= (q / 10) * 5);
}

} // verus!
