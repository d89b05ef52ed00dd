//! The autoplay: a scripted player that gives the same controls as a person
//! would, for sessions that nobody attends.
//!
//! It watches the lowest obstacle. If that one is about to reach the ship and
//! is above it, the ship dodges away from it; otherwise the ship moves under
//! it and fires. It also fires every few ticks whatever happens, and sets off
//! a bomb when the screen fills up.

use vstd::prelude::*;
use crate::entities::{Obstacle, MAX_OBS, OBS_W, PLAYER_W, PLAYER_Y};
use crate::input::Controls;
use crate::pools::{count_obstacles, count_set, live_obstacles};
use crate::powerups::DANGER_BAND;
use crate::targeting::{lowest, lowest_obstacle};

verus! {

/// The autoplay fires on every tick whose number is a multiple of this.
pub const DEMO_FIRE_PERIOD: u32 = 8;

/// The autoplay sets off a bomb when this many obstacles are live.
pub const DEMO_BOMB_THRESHOLD: usize = 4;

/// An obstacle in the danger band is dodged when its centre is less than this
/// far to the side of the ship's centre.
pub const DEMO_DODGE_REACH: i32 = 28;

/// The ship counts as aligned with an obstacle when their centres are no
/// further apart than this.
pub const DEMO_DEAD_ZONE: i32 = 4;

/// The controls that the autoplay gives in a tick.
pub open spec fn demo_policy(
    pool: Seq<Obstacle>,
    player_x: int,
    bombs: int,
    frame: u32,
) -> Controls {
    let periodic = frame % DEMO_FIRE_PERIOD == 0;
    let bomb = count_set(live_obstacles(pool)) >= DEMO_BOMB_THRESHOLD && bombs > 0;
    match lowest(pool) {
        None => Controls { left: false, right: false, fire: periodic, fire_held: periodic, bomb },
        Some(t) => {
            let dx = pool[t].x + OBS_W / 2 - (player_x + PLAYER_W / 2);
            if pool[t].y > PLAYER_Y - DANGER_BAND && -DEMO_DODGE_REACH < dx < DEMO_DODGE_REACH {
                Controls {
                    left: dx >= 0,
                    right: dx < 0,
                    fire: periodic,
                    fire_held: periodic,
                    bomb,
                }
            } else if dx > DEMO_DEAD_ZONE {
                Controls { left: false, right: true, fire: periodic, fire_held: periodic, bomb }
            } else if dx < -DEMO_DEAD_ZONE {
                Controls { left: true, right: false, fire: periodic, fire_held: periodic, bomb }
            } else {
                Controls { left: false, right: false, fire: true, fire_held: true, bomb }
            }
        },
    }
}

/// Decides the controls of one tick of autoplay. The offsets are taken in 64
/// bits, so no position overflows.
pub fn demo_controls(pool: &[Obstacle; MAX_OBS], player_x: i32, bombs: u8, frame: u32) -> (c:
    Controls)
    ensures
        c == demo_policy(pool@, player_x as int, bombs as int, frame),
        !(c.left && c.right),
        c.fire == c.fire_held,
{
    let periodic: bool = frame % DEMO_FIRE_PERIOD == 0;
    let bomb: bool = count_obstacles(pool) >= DEMO_BOMB_THRESHOLD && bombs > 0;
    match lowest_obstacle(pool) {
        None => Controls { left: false, right: false, fire: periodic, fire_held: periodic, bomb },
        Some(t) => {
            let target = pool[t];
            let obstacle_cx: i64 = target.x as i64 + (OBS_W / 2) as i64;
            let ship_cx: i64 = player_x as i64 + (PLAYER_W / 2) as i64;
            let dx: i64 = obstacle_cx - ship_cx;
            if target.y > PLAYER_Y - DANGER_BAND && -(DEMO_DODGE_REACH as i64) < dx && dx
                < DEMO_DODGE_REACH as i64 {
                Controls {
                    left: dx >= 0,
                    right: dx < 0,
                    fire: periodic,
                    fire_held: periodic,
                    bomb,
                }
            } else if dx > DEMO_DEAD_ZONE as i64 {
                Controls { left: false, right: true, fire: periodic, fire_held: periodic, bomb }
            } else if dx < -(DEMO_DEAD_ZONE as i64) {
                Controls { left: true, right: false, fire: periodic, fire_held: periodic, bomb }
            } else {
                Controls { left: false, right: false, fire: true, fire_held: true, bomb }
            }
        },
    }
}

} // verus!
