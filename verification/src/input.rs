//! Input: the raw button levels that the caller samples once per tick, the
//! edges that the game derives from them, and the abstract controls that
//! drive the ship, whoever produces them.

use vstd::prelude::*;

verus! {

/// Four button levels, `true` while a button is held down. `a` and `x` are
/// the two fire buttons, `b` steers left and `y` right. The same shape holds
/// the buttons' edges: `true` for a button that went down in this tick.
#[derive(Clone, Copy, Debug, PartialEq, Eq, Structural)]
pub struct Buttons {
    pub a: bool,
    pub b: bool,
    pub x: bool,
    pub y: bool,
}

/// The buttons that are down now and were not down one tick before.
pub open spec fn pressed(now: Buttons, before: Buttons) -> Buttons {
    Buttons {
        a: now.a && !before.a,
        b: now.b && !before.b,
        x: now.x && !before.x,
        y: now.y && !before.y,
    }
}

impl Buttons {
    /// Whether any of the four is set.
    pub open spec fn any(&self) -> bool {
        self.a || self.b || self.x || self.y
    }

    /// Whether both fire buttons are set: the chord that starts the autoplay
    /// on the title screen and sets off a bomb in a game.
    pub open spec fn chord(&self) -> bool {
        self.a && self.x
    }

    /// No button down.
    pub fn released() -> (r: Buttons)
        ensures
            r == (Buttons { a: false, b: false, x: false, y: false }),
            !r.any(),
    {
        Buttons { a: false, b: false, x: false, y: false }
    }

    /// Whether any of the four is set.
    pub fn is_any(&self) -> (r: bool)
        ensures
            r == self.any(),
    {
        self.a || self.b || self.x || self.y
    }

    /// Whether both fire buttons are set.
    pub fn is_chord(&self) -> (r: bool)
        ensures
            r == self.chord(),
    {
        self.a && self.x
    }

    /// The edges of this tick: the buttons that are down now and were not
    /// down at the tick before.
    pub fn edges(&self, before: &Buttons) -> (r: Buttons)
        ensures
            r == pressed(*self, *before),
    {
        Buttons {
            a: self.a && !before.a,
            b: self.b && !before.b,
            x: self.x && !before.x,
            y: self.y && !before.y,
        }
    }
}

/// The controls of one tick: what a player, or the autoplay in the player's
/// place, wants the ship to do.
#[derive(Clone, Copy, Debug, PartialEq, Eq, Structural)]
pub struct Controls {
    /// Move left.
    pub left: bool,
    /// Move right.
    pub right: bool,
    /// Fire one missile.
    pub fire: bool,
    /// A fire control is held down, which keeps the laser firing.
    pub fire_held: bool,
    /// Set off a bomb.
    pub bomb: bool,
}

/// The controls that the buttons give. The two steering buttons act while
/// held. A fire button that goes down fires a missile, unless both are held:
/// then it sets off a bomb.
pub open spec fn controls_of(down: Buttons, just: Buttons) -> Controls {
    Controls {
        left: down.b,
        right: down.y,
        fire: !down.chord() && (just.a || just.x),
        fire_held: down.a || down.x,
        bomb: down.chord() && (just.a || just.x),
    }
}

/// The controls that a player gives with the buttons.
pub fn human_controls(down: &Buttons, just: &Buttons) -> (c: Controls)
    ensures
        c == controls_of(*down, *just),
        !(c.fire && c.bomb),
{
    let both: bool = down.a && down.x;
    let edge: bool = just.a || just.x;
    Controls {
        left: down.b,
        right: down.y,
        fire: !both && edge,
        fire_held: down.a || down.x,
        bomb: both && edge,
    }
}

} // verus!
