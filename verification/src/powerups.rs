//! Power-ups: the four countdown timers and what a picked-up gift grants.

use vstd::prelude::*;
use crate::entities::{Obstacle, MAX_BOMBS, MAX_LIVES, MAX_OBS, PLAYER_Y};
use crate::player::Player;
use crate::pools::obstacles_wf;

verus! {

/// Ticks that a timed power-up lasts: ten seconds.
pub const POWERUP_TICKS: u32 = 200;

/// Height of the band above the player's row in which an obstacle is an
/// immediate danger.
pub const DANGER_BAND: i32 = 30;

/// Number of different power-ups.
pub const POWERUP_KINDS: i32 = 6;

/// The four countdowns. Each runs on its own and stops at zero; the power-up
/// is on while its countdown is not zero.
#[derive(Clone, Copy, Debug, PartialEq, Eq, Structural)]
pub struct PowerupTimers {
    pub freeze: u32,
    pub homing: u32,
    pub laser: u32,
    pub shield: u32,
}

/// A countdown one tick later.
pub open spec fn counted_down(t: u32) -> u32 {
    if t > 0 {
        (t - 1) as u32
    } else {
        0
    }
}

/// The timers one tick later: every one of them has counted down.
pub open spec fn ticked(t: PowerupTimers) -> PowerupTimers {
    PowerupTimers {
        freeze: counted_down(t.freeze),
        homing: counted_down(t.homing),
        laser: counted_down(t.laser),
        shield: counted_down(t.shield),
    }
}

impl PowerupTimers {
    /// No countdown is longer than a power-up lasts.
    pub open spec fn wf(&self) -> bool {
        &&& self.freeze <= POWERUP_TICKS
        &&& self.homing <= POWERUP_TICKS
        &&& self.laser <= POWERUP_TICKS
        &&& self.shield <= POWERUP_TICKS
    }

    /// All power-ups off.
    pub fn new() -> (t: PowerupTimers)
        ensures
            t == (PowerupTimers { freeze: 0, homing: 0, laser: 0, shield: 0 }),
            t.wf(),
    {
        PowerupTimers { freeze: 0, homing: 0, laser: 0, shield: 0 }
    }

    /// Counts all four timers down by one tick, whatever their values.
    pub fn tick(&mut self)
        ensures
            *final(self) == ticked(*old(self)),
            old(self).wf() ==> final(self).wf(),
    {
        self.freeze = self.freeze.saturating_sub(1);
        self.homing = self.homing.saturating_sub(1);
        self.laser = self.laser.saturating_sub(1);
        self.shield = self.shield.saturating_sub(1);
    }
}

/// What a gift can grant.
#[derive(Clone, Copy, Debug, PartialEq, Eq, Structural)]
pub enum Powerup {
    /// One more bomb charge.
    Bomb,
    /// One more life.
    Life,
    /// Obstacles stand still, and those about to reach the player vanish.
    Freeze,
    /// Missiles fired from now on steer towards obstacles.
    Homing,
    /// Holding fire destroys the nearest obstacle at once.
    Laser,
    /// Obstacles do no damage.
    Shield,
}

/// The power-up that a roll of the six-sided die selects.
pub open spec fn powerup_of(roll: int) -> Powerup {
    if roll == 0 {
        Powerup::Bomb
    } else if roll == 1 {
        Powerup::Life
    } else if roll == 2 {
        Powerup::Freeze
    } else if roll == 3 {
        Powerup::Homing
    } else if roll == 4 {
        Powerup::Laser
    } else {
        Powerup::Shield
    }
}

/// The ship after a power-up: a bomb or a life more, up to the most it can
/// hold.
pub open spec fn granted_player(kind: Powerup, p: Player) -> Player {
    match kind {
        Powerup::Bomb => Player {
            bombs: if p.bombs < MAX_BOMBS {
                (p.bombs + 1) as u8
            } else {
                MAX_BOMBS
            },
            ..p
        },
        Powerup::Life => Player {
            lives: if p.lives < MAX_LIVES {
                (p.lives + 1) as u8
            } else {
                MAX_LIVES
            },
            ..p
        },
        _ => p,
    }
}

/// The timers after a power-up: a timed one starts its countdown afresh.
pub open spec fn granted_timers(kind: Powerup, t: PowerupTimers) -> PowerupTimers {
    match kind {
        Powerup::Freeze => PowerupTimers { freeze: POWERUP_TICKS, ..t },
        Powerup::Homing => PowerupTimers { homing: POWERUP_TICKS, ..t },
        Powerup::Laser => PowerupTimers { laser: POWERUP_TICKS, ..t },
        Powerup::Shield => PowerupTimers { shield: POWERUP_TICKS, ..t },
        _ => t,
    }
}

/// Whether an obstacle is live and so low that it is about to reach the
/// player's row.
pub open spec fn in_danger_band(o: Obstacle) -> bool {
    o.active && o.y > PLAYER_Y - DANGER_BAND
}

/// An obstacle after the freeze has cleared the danger band.
pub open spec fn band_cleared(o: Obstacle) -> Obstacle {
    if in_danger_band(o) {
        Obstacle { active: false, ..o }
    } else {
        o
    }
}

/// The obstacles after a power-up: the freeze removes those in the danger
/// band, which would otherwise stand in the player's way for as long as it
/// lasts.
pub open spec fn granted_obstacles(kind: Powerup, pool: Seq<Obstacle>) -> Seq<Obstacle> {
    match kind {
        Powerup::Freeze => Seq::new(pool.len(), |i: int| band_cleared(pool[i])),
        _ => pool,
    }
}

impl Powerup {
    /// The power-up that a roll selects. Rolls come from `range(6)`; each of
    /// the six is as likely as the others.
    pub fn from_roll(roll: i32) -> (k: Powerup)
        ensures
            k == powerup_of(roll as int),
    {
        if roll == 0 {
            Powerup::Bomb
        } else if roll == 1 {
            Powerup::Life
        } else if roll == 2 {
            Powerup::Freeze
        } else if roll == 3 {
            Powerup::Homing
        } else if roll == 4 {
            Powerup::Laser
        } else {
            Powerup::Shield
        }
    }
}

/// Removes every live obstacle in the danger band.
pub fn clear_danger_band(pool: &mut [Obstacle; MAX_OBS])
    ensures
        final(pool)@ == granted_obstacles(Powerup::Freeze, old(pool)@),
        obstacles_wf(old(pool)@) ==> obstacles_wf(final(pool)@),
{
    let mut i: usize = 0;
    while i < MAX_OBS
        invariant
            0 <= i <= MAX_OBS,
            forall|j: int| 0 <= j < i ==> pool@[j] == band_cleared(old(pool)@[j]),
            forall|j: int| i <= j < MAX_OBS ==> pool@[j] == old(pool)@[j],
            obstacles_wf(old(pool)@) ==> obstacles_wf(pool@),
        decreases MAX_OBS - i,
    {
        if pool[i].active && pool[i].y > PLAYER_Y - DANGER_BAND {
            pool[i].active = false;
        }
        i += 1;
    }
    assert(pool@ =~= granted_obstacles(Powerup::Freeze, old(pool)@));
}

/// Grants a power-up.
pub fn grant(
    kind: Powerup,
    player: &mut Player,
    timers: &mut PowerupTimers,
    pool: &mut [Obstacle; MAX_OBS],
)
    ensures
        *final(player) == granted_player(kind, *old(player)),
        *final(timers) == granted_timers(kind, *old(timers)),
        final(pool)@ == granted_obstacles(kind, old(pool)@),
        old(player).wf() ==> final(player).wf(),
        old(timers).wf() ==> final(timers).wf(),
        obstacles_wf(old(pool)@) ==> obstacles_wf(final(pool)@),
{
    match kind {
        Powerup::Bomb => {
            player.bombs = if player.bombs < MAX_BOMBS {
                player.bombs + 1
            } else {
                MAX_BOMBS
            };
        },
        Powerup::Life => {
            player.lives = if player.lives < MAX_LIVES {
                player.lives + 1
            } else {
                MAX_LIVES
            };
        },
        Powerup::Freeze => {
            timers.freeze = POWERUP_TICKS;
            clear_danger_band(pool);
        },
        Powerup::Homing => {
            timers.homing = POWERUP_TICKS;
        },
        Powerup::Laser => {
            timers.laser = POWERUP_TICKS;
        },
        Powerup::Shield => {
            timers.shield = POWERUP_TICKS;
        },
    }
}

} // verus!
