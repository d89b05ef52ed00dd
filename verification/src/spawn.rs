//! Spawning: when a new obstacle or a new gift enters the play field, and
//! where.

use vstd::prelude::*;
use crate::difficulty::{interval_at, spawn_interval};
use crate::entities::{Gift, Obstacle, GIFT_MAX_LIFE, GIFT_W, HUD_H, OBS_W, SCREEN_W};
use crate::game::{Core, Game, GameView, GIFT_CHANCE, GIFT_INTERVAL};
use crate::pools::{
    first_free_gift, first_free_obstacle, first_set, free_gifts, free_obstacles, lemma_first_set,
    lemma_gift_put, lemma_obstacle_put,
};
use crate::rng::{draw, lemma_step_keeps_nonzero, xorshift32, Rng};

verus! {

/// The session after a new obstacle has been placed, if a slot is free: at a
/// random column at the top of the play field, in the first free slot. With
/// the pool full the spawn is dropped, and nothing is drawn from the
/// generator.
pub open spec fn obstacle_placed(g: GameView) -> GameView {
    let slot = first_set(free_obstacles(g.obstacles));
    if slot < g.obstacles.len() {
        GameView {
            core: Core { rng: Rng { state: xorshift32(g.core.rng.state) }, ..g.core },
            obstacles: g.obstacles.update(
                slot,
                Obstacle {
                    x: draw(g.core.rng.state, (SCREEN_W - OBS_W) as int) as i32,
                    y: HUD_H,
                    active: true,
                },
            ),
            ..g
        }
    } else {
        g
    }
}

/// The session after the obstacle spawn timer has run for a tick at a given
/// progress: the timer counts up, and when it reaches the interval it starts
/// again and an obstacle is due.
pub open spec fn obstacle_spawned(g: GameView, progress: int) -> GameView {
    if g.core.spawn_timer + 1 >= interval_at(progress) {
        obstacle_placed(GameView { core: Core { spawn_timer: 0, ..g.core }, ..g })
    } else {
        GameView { core: Core { spawn_timer: (g.core.spawn_timer + 1) as u32, ..g.core }, ..g }
    }
}

/// The session after a new gift has been placed, if a slot is free: at a
/// random column at the top of the play field, with its whole life ahead.
pub open spec fn gift_placed(g: GameView) -> GameView {
    let slot = first_set(free_gifts(g.gifts));
    if slot < g.gifts.len() {
        GameView {
            core: Core { rng: Rng { state: xorshift32(g.core.rng.state) }, ..g.core },
            gifts: g.gifts.update(
                slot,
                Gift {
                    x: draw(g.core.rng.state, (SCREEN_W - GIFT_W) as int) as i32,
                    y: HUD_H,
                    life: GIFT_MAX_LIFE,
                    active: true,
                },
            ),
            ..g
        }
    } else {
        g
    }
}

/// The session after the gift timer has run for a tick. Once the timer has
/// reached the gift interval, every tick rolls for a gift until a roll
/// succeeds; then the timer starts again and a gift is due.
pub open spec fn gift_spawned(g: GameView) -> GameView {
    if g.core.gift_timer + 1 >= GIFT_INTERVAL {
        let rolled = GameView {
            core: Core {
                rng: Rng { state: xorshift32(g.core.rng.state) },
                gift_timer: GIFT_INTERVAL,
                ..g.core
            },
            ..g
        };
        if draw(g.core.rng.state, 100) < GIFT_CHANCE {
            gift_placed(GameView { core: Core { gift_timer: 0, ..rolled.core }, ..rolled })
        } else {
            rolled
        }
    } else {
        GameView { core: Core { gift_timer: (g.core.gift_timer + 1) as u32, ..g.core }, ..g }
    }
}

/// Placing an obstacle keeps the invariant and changes nothing but the
/// obstacle pool and the generator.
pub proof fn lemma_obstacle_placed(g: GameView)
    requires
        g.wf(),
    ensures
        obstacle_placed(g).plays_on_from(g),
        obstacle_placed(g).core.same_screen(g.core),
        obstacle_placed(g).core.player == g.core.player,
        obstacle_placed(g).core.score == g.core.score,
        obstacle_placed(g).core.timers == g.core.timers,
{
    let slot = first_set(free_obstacles(g.obstacles));
    lemma_first_set(free_obstacles(g.obstacles), 0);
    lemma_step_keeps_nonzero(g.core.rng.state);
    if slot < g.obstacles.len() {
        lemma_obstacle_put(
            g.obstacles,
            slot,
            Obstacle {
                x: draw(g.core.rng.state, (SCREEN_W - OBS_W) as int) as i32,
                y: HUD_H,
                active: true,
            },
        );
    }
}

/// A tick of the obstacle spawn timer keeps the invariant.
pub proof fn lemma_obstacle_spawned(g: GameView, progress: int)
    requires
        g.wf(),
        progress >= 0,
    ensures
        obstacle_spawned(g, progress).plays_on_from(g),
        obstacle_spawned(g, progress).core.same_screen(g.core),
        obstacle_spawned(g, progress).core.player == g.core.player,
        obstacle_spawned(g, progress).core.score == g.core.score,
        obstacle_spawned(g, progress).core.timers == g.core.timers,
{
    if g.core.spawn_timer + 1 >= interval_at(progress) {
        lemma_obstacle_placed(GameView { core: Core { spawn_timer: 0, ..g.core }, ..g });
    }
}

/// Placing a gift keeps the invariant and changes nothing but the gift pool
/// and the generator.
pub proof fn lemma_gift_placed(g: GameView)
    requires
        g.wf(),
    ensures
        gift_placed(g).plays_on_from(g),
        gift_placed(g).core.same_screen(g.core),
        gift_placed(g).core.player == g.core.player,
        gift_placed(g).core.score == g.core.score,
        gift_placed(g).core.timers == g.core.timers,
{
    let slot = first_set(free_gifts(g.gifts));
    lemma_first_set(free_gifts(g.gifts), 0);
    lemma_step_keeps_nonzero(g.core.rng.state);
    if slot < g.gifts.len() {
        lemma_gift_put(
            g.gifts,
            slot,
            Gift {
                x: draw(g.core.rng.state, (SCREEN_W - GIFT_W) as int) as i32,
                y: HUD_H,
                life: GIFT_MAX_LIFE,
                active: true,
            },
        );
    }
}

/// A tick of the gift timer keeps the invariant.
pub proof fn lemma_gift_spawned(g: GameView)
    requires
        g.wf(),
    ensures
        gift_spawned(g).plays_on_from(g),
        gift_spawned(g).core.same_screen(g.core),
        gift_spawned(g).core.player == g.core.player,
        gift_spawned(g).core.score == g.core.score,
        gift_spawned(g).core.timers == g.core.timers,
{
    lemma_step_keeps_nonzero(g.core.rng.state);
    if g.core.gift_timer + 1 >= GIFT_INTERVAL {
        let rolled = GameView {
            core: Core {
                rng: Rng { state: xorshift32(g.core.rng.state) },
                gift_timer: GIFT_INTERVAL,
                ..g.core
            },
            ..g
        };
        lemma_gift_placed(GameView { core: Core { gift_timer: 0, ..rolled.core }, ..rolled });
    }
}

impl Game {
    /// Places a new obstacle, if a slot is free.
    pub fn place_obstacle(&mut self)
        requires
            old(self).wf(),
        ensures
            final(self)@ == obstacle_placed(old(self)@),
            final(self).wf(),
            final(self).core.same_screen(old(self).core),
            final(self).core.score == old(self).core.score,
    {
        match first_free_obstacle(&self.obstacles) {
            Some(slot) => {
                let x: i32 = self.core.rng.range(SCREEN_W - OBS_W);
                self.obstacles[slot] = Obstacle { x, y: HUD_H, active: true };
                proof {
                    let g = old(self)@;
                    assert(self@.obstacles =~= g.obstacles.update(
                        slot as int,
                        Obstacle { x, y: HUD_H, active: true },
                    ));
                    lemma_obstacle_placed(g);
                }
            },
            None => {},
        }
    }

    /// Runs the obstacle spawn timer for a tick at a given progress.
    pub fn spawn_obstacle(&mut self, progress: u32)
        requires
            old(self).wf(),
        ensures
            final(self)@ == obstacle_spawned(old(self)@, progress as int),
            final(self).wf(),
            final(self).core.same_screen(old(self).core),
            final(self).core.score == old(self).core.score,
    {
        let t: u32 = self.core.spawn_timer + 1;
        if t >= spawn_interval(progress) {
            self.core.spawn_timer = 0;
            self.place_obstacle();
        } else {
            self.core.spawn_timer = t;
        }
    }

    /// Places a new gift, if a slot is free.
    pub fn place_gift(&mut self)
        requires
            old(self).wf(),
        ensures
            final(self)@ == gift_placed(old(self)@),
            final(self).wf(),
            final(self).core.same_screen(old(self).core),
            final(self).core.score == old(self).core.score,
    {
        match first_free_gift(&self.gifts) {
            Some(slot) => {
                let x: i32 = self.core.rng.range(SCREEN_W - GIFT_W);
                self.gifts[slot] = Gift { x, y: HUD_H, life: GIFT_MAX_LIFE, active: true };
                proof {
                    let g = old(self)@;
                    assert(self@.gifts =~= g.gifts.update(
                        slot as int,
                        Gift { x, y: HUD_H, life: GIFT_MAX_LIFE, active: true },
                    ));
                    lemma_gift_placed(g);
                }
            },
            None => {},
        }
    }

    /// Runs the gift timer for a tick.
    pub fn spawn_gift(&mut self)
        requires
            old(self).wf(),
        ensures
            final(self)@ == gift_spawned(old(self)@),
            final(self).wf(),
            final(self).core.same_screen(old(self).core),
            final(self).core.score == old(self).core.score,
    {
        if self.core.gift_timer + 1 >= GIFT_INTERVAL {
            self.core.gift_timer = GIFT_INTERVAL;
            let roll: i32 = self.core.rng.range(100);
            if roll < GIFT_CHANCE {
                self.core.gift_timer = 0;
                self.place_gift();
            }
        } else {
            self.core.gift_timer = self.core.gift_timer + 1;
        }
    }
}

} // verus!
