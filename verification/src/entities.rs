//! Play-field constants and the four kinds of pooled entity.

use vstd::prelude::*;

verus! {

/// Width of the screen in pixels.
pub const SCREEN_W: i32 = 240;

/// Height of the screen in pixels.
pub const SCREEN_H: i32 = 135;

/// Height of the status bar at the top; the play field starts below it.
pub const HUD_H: i32 = 14;

/// Width of the player's ship.
pub const PLAYER_W: i32 = 24;

/// Height of the player's ship.
pub const PLAYER_H: i32 = 8;

/// Row on which the player's ship sits.
pub const PLAYER_Y: i32 = 120;

/// Where the ship starts a game: in the middle of the screen.
pub const PLAYER_START_X: i32 = 108;

/// Pixels that the ship moves in one tick while a direction is held.
pub const PLAYER_SPEED: i32 = 5;

/// Width of an obstacle.
pub const OBS_W: i32 = 12;

/// Height of an obstacle.
pub const OBS_H: i32 = 8;

/// Capacity of the obstacle pool.
pub const MAX_OBS: usize = 6;

/// Width of a missile.
pub const MISSILE_W: i32 = 3;

/// Height of a missile.
pub const MISSILE_H: i32 = 6;

/// Pixels that a missile climbs in one tick.
pub const MISSILE_SPEED: i32 = 4;

/// Capacity of the missile pool.
pub const MAX_MISSILES: usize = 8;

/// Width of a gift.
pub const GIFT_W: i32 = 10;

/// Height of a gift.
pub const GIFT_H: i32 = 10;

/// Pixels that a gift falls in one tick.
pub const GIFT_SPEED: i32 = 1;

/// Capacity of the gift pool.
pub const MAX_GIFTS: usize = 2;

/// Ticks that a gift lives when nothing picks it up.
pub const GIFT_MAX_LIFE: u8 = 80;

/// A gift flickers once its remaining life is at most this.
pub const GIFT_FADE_START: u8 = 20;

/// Capacity of the particle pool.
pub const MAX_PARTICLES: usize = 36;

/// Ticks that a debris particle lives.
pub const PARTICLE_LIFE: u8 = 8;

/// Largest speed of a debris particle on either axis, in pixels per tick.
pub const PARTICLE_MAX_SPEED: i32 = 3;

/// Most lives that a player can hold.
pub const MAX_LIVES: u8 = 3;

/// Most bomb charges that a player can hold.
pub const MAX_BOMBS: u8 = 3;

/// A falling obstacle. While `active` is false the slot is free and its
/// position means nothing.
#[derive(Clone, Copy, Debug, PartialEq, Eq, Structural)]
pub struct Obstacle {
    pub x: i32,
    pub y: i32,
    pub active: bool,
}

impl Obstacle {
    /// A live obstacle lies within the screen.
    pub open spec fn wf(&self) -> bool {
        self.active ==> 0 <= self.x <= SCREEN_W - OBS_W && 0 <= self.y <= SCREEN_H
    }

    /// Whether the obstacle is within its bounds.
    pub fn is_valid(&self) -> (r: bool)
        ensures
            r == self.wf(),
    {
        !self.active || (0 <= self.x && self.x <= SCREEN_W - OBS_W && 0 <= self.y && self.y
            <= SCREEN_H)
    }

    /// A free slot.
    pub fn new() -> (r: Obstacle)
        ensures
            r == (Obstacle { x: 0, y: 0, active: false }),
            r.wf(),
    {
        Obstacle { x: 0, y: 0, active: false }
    }
}

/// A missile on its way up. `homing` is fixed when the missile is fired.
#[derive(Clone, Copy, Debug, PartialEq, Eq, Structural)]
pub struct Missile {
    pub x: i32,
    pub y: i32,
    pub active: bool,
    pub homing: bool,
}

impl Missile {
    /// A live missile lies within the screen.
    pub open spec fn wf(&self) -> bool {
        self.active ==> 0 <= self.x <= SCREEN_W - MISSILE_W && 0 <= self.y <= SCREEN_H
    }

    /// Whether the missile is within its bounds.
    pub fn is_valid(&self) -> (r: bool)
        ensures
            r == self.wf(),
    {
        !self.active || (0 <= self.x && self.x <= SCREEN_W - MISSILE_W && 0 <= self.y && self.y
            <= SCREEN_H)
    }

    /// A free slot.
    pub fn new() -> (r: Missile)
        ensures
            r == (Missile { x: 0, y: 0, active: false, homing: false }),
            r.wf(),
    {
        Missile { x: 0, y: 0, active: false, homing: false }
    }
}

/// A debris particle. It is only drawn and never collides. A `life` of zero
/// marks a free slot.
#[derive(Clone, Copy, Debug, PartialEq, Eq, Structural)]
pub struct Particle {
    pub x: i32,
    pub y: i32,
    pub dx: i32,
    pub dy: i32,
    pub life: u8,
}

impl Particle {
    /// How many ticks a live particle has flown.
    pub open spec fn age(&self) -> int {
        PARTICLE_LIFE - self.life
    }

    /// A live particle is no faster than the largest speed on either axis,
    /// and so lies no further from the area in which bursts start than it can
    /// have flown at its age.
    pub open spec fn wf(&self) -> bool {
        self.life > 0 ==> {
            &&& self.life <= PARTICLE_LIFE
            &&& -PARTICLE_MAX_SPEED <= self.dx <= PARTICLE_MAX_SPEED
            &&& -PARTICLE_MAX_SPEED <= self.dy <= PARTICLE_MAX_SPEED
            &&& -PARTICLE_MAX_SPEED * self.age() <= self.x <= SCREEN_W + PARTICLE_MAX_SPEED
                * self.age()
            &&& -PARTICLE_MAX_SPEED * self.age() <= self.y <= SCREEN_H + GIFT_H
                + PARTICLE_MAX_SPEED * self.age()
        }
    }

    /// Whether the particle is within its bounds.
    pub fn is_valid(&self) -> (r: bool)
        ensures
            r == self.wf(),
    {
        if self.life == 0 {
            return true;
        }
        if self.life > PARTICLE_LIFE {
            return false;
        }
        let reach: i32 = PARTICLE_MAX_SPEED * ((PARTICLE_LIFE - self.life) as i32);
        -PARTICLE_MAX_SPEED <= self.dx && self.dx <= PARTICLE_MAX_SPEED && -PARTICLE_MAX_SPEED
            <= self.dy && self.dy <= PARTICLE_MAX_SPEED && -reach <= self.x && self.x <= SCREEN_W
            + reach && -reach <= self.y && self.y <= SCREEN_H + GIFT_H + reach
    }

    /// A free slot.
    pub fn new() -> (r: Particle)
        ensures
            r == (Particle { x: 0, y: 0, dx: 0, dy: 0, life: 0 }),
            r.wf(),
    {
        Particle { x: 0, y: 0, dx: 0, dy: 0, life: 0 }
    }
}

/// A falling gift. `life` counts down every tick; the gift disappears when it
/// reaches zero.
#[derive(Clone, Copy, Debug, PartialEq, Eq, Structural)]
pub struct Gift {
    pub x: i32,
    pub y: i32,
    pub life: u8,
    pub active: bool,
}

impl Gift {
    /// A live gift has life left and cannot fall below the screen before its
    /// life runs out.
    pub open spec fn wf(&self) -> bool {
        self.active ==> {
            &&& 0 <= self.x <= SCREEN_W - GIFT_W
            &&& 0 <= self.y
            &&& 1 <= self.life
            &&& self.y + GIFT_SPEED * self.life <= SCREEN_H
        }
    }

    /// Whether the gift is in the last part of its life, in which it
    /// flickers.
    pub fn is_fading(&self) -> (r: bool)
        ensures
            r == (self.life <= GIFT_FADE_START),
    {
        self.life <= GIFT_FADE_START
    }

    /// Whether the gift is within its bounds.
    pub fn is_valid(&self) -> (r: bool)
        ensures
            r == self.wf(),
    {
        !self.active || (0 <= self.x && self.x <= SCREEN_W - GIFT_W && 0 <= self.y && 1
            <= self.life && self.y <= SCREEN_H - GIFT_SPEED * (self.life as i32))
    }

    /// A free slot.
    pub fn new() -> (r: Gift)
        ensures
            r == (Gift { x: 0, y: 0, life: 0, active: false }),
            r.wf(),
    {
        Gift { x: 0, y: 0, life: 0, active: false }
    }
}

} // verus!
