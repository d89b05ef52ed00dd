//! What the player shoots with: missiles, the laser and the bomb, and the
//! destruction of an obstacle that all three end in.

use vstd::prelude::*;
use crate::entities::{
    Missile, Obstacle, MAX_OBS, MISSILE_H, MISSILE_W, OBS_H, OBS_W, PLAYER_W, PLAYER_Y,
};
use crate::game::{Core, Game, GameView};
use crate::input::Controls;
use crate::particles::{burst, lemma_burst_wf, spawn_burst, BurstShape};
use crate::player::{awarded, Player, ScoreState, SCORE_HIT};
use crate::pools::{
    count_set_from, first_free_missile, first_set, free_missiles, lemma_count_from_agrees,
    lemma_count_split, lemma_first_set, lemma_missile_put, lemma_none_set, lemma_obstacle_put,
    live_obstacles,
};
use crate::rng::Rng;
use crate::targeting::{lemma_nearest, nearest, nearest_obstacle};

verus! {

/// The line that the laser draws in the tick in which it fires: from the
/// ship's muzzle to the centre of the obstacle that it destroyed.
#[derive(Clone, Copy, Debug, PartialEq, Eq, Structural)]
pub struct Beam {
    pub x0: i32,
    pub y0: i32,
    pub x1: i32,
    pub y1: i32,
}

/// The session after the live obstacle in slot `slot` has been destroyed: a
/// burst of debris around its centre, the slot free, and the score up by the
/// points for a hit.
pub open spec fn destroyed(g: GameView, slot: int, shape: BurstShape) -> GameView {
    let o = g.obstacles[slot];
    let thrown = burst(
        g.particles,
        g.core.rng.state,
        (o.x + OBS_W / 2) as i32,
        (o.y + OBS_H / 2) as i32,
        shape,
    );
    GameView {
        core: Core {
            rng: Rng { state: thrown.1 },
            score: ScoreState {
                score: awarded(g.core.score.score, SCORE_HIT as int),
                ..g.core.score
            },
            ..g.core
        },
        obstacles: g.obstacles.update(slot, Obstacle { active: false, ..o }),
        particles: thrown.0,
        ..g
    }
}

/// The session after a bomb has gone through the obstacle slots from `slot`
/// on, destroying every live obstacle in slot order.
pub open spec fn bomb_from(g: GameView, slot: int) -> GameView
    decreases g.obstacles.len() - slot,
{
    if slot < 0 || slot >= g.obstacles.len() {
        g
    } else if g.obstacles[slot].active {
        bomb_from(
            destroyed(g, slot, BurstShape { w: OBS_W, h: OBS_H, spread: 3, count: 4 }),
            slot + 1,
        )
    } else {
        bomb_from(g, slot + 1)
    }
}

/// The session after a bomb: one charge less, every live obstacle destroyed
/// and scored, and the difficulty baseline moved up to the new score.
pub open spec fn bombed(g: GameView) -> GameView {
    let blown = bomb_from(
        GameView {
            core: Core {
                player: Player { bombs: (g.core.player.bombs - 1) as u8, ..g.core.player },
                ..g.core
            },
            ..g
        },
        0,
    );
    GameView {
        core: Core {
            score: ScoreState { speed_base_score: blown.core.score.score, ..blown.core.score },
            ..blown.core
        },
        ..blown
    }
}

/// The column of the ship's muzzle, from which missiles and the laser leave.
pub open spec fn muzzle_x(g: GameView) -> int {
    g.core.player.x + PLAYER_W / 2
}

/// The session after the laser has fired, and the beam to draw: the live
/// obstacle nearest to the muzzle is destroyed at once. Without a live
/// obstacle nothing happens.
pub open spec fn lasered(g: GameView) -> (GameView, Option<Beam>) {
    match nearest(g.obstacles, muzzle_x(g), PLAYER_Y as int) {
        Some(t) => (
            destroyed(g, t, BurstShape { w: OBS_W, h: OBS_H, spread: 3, count: 4 }),
            Some(
                Beam {
                    x0: muzzle_x(g) as i32,
                    y0: PLAYER_Y,
                    x1: (g.obstacles[t].x + OBS_W / 2) as i32,
                    y1: (g.obstacles[t].y + OBS_H / 2) as i32,
                },
            ),
        ),
        None => (g, None),
    }
}

/// The missile that the ship fires: centred on the muzzle, just above the
/// ship, and homing if the homing power-up is on at that moment.
pub open spec fn new_missile(g: GameView) -> Missile {
    Missile {
        x: (muzzle_x(g) - MISSILE_W / 2) as i32,
        y: (PLAYER_Y - MISSILE_H) as i32,
        active: true,
        homing: g.core.timers.homing > 0,
    }
}

/// The session after the ship has fired a missile: it takes the first free
/// slot. With the pool full nothing is fired.
pub open spec fn launched(g: GameView) -> GameView {
    let slot = first_set(free_missiles(g.missiles));
    if slot < g.missiles.len() {
        GameView { missiles: g.missiles.update(slot, new_missile(g)), ..g }
    } else {
        g
    }
}

/// The session after the fire controls have been served, and the beam to
/// draw. While the laser is on and fire is held, the laser fires in place of
/// a missile.
pub open spec fn fired(g: GameView, c: Controls) -> (GameView, Option<Beam>) {
    if g.core.timers.laser > 0 && c.fire_held {
        lasered(g)
    } else if c.fire {
        (launched(g), None)
    } else {
        (g, None)
    }
}

/// Destroying a live obstacle keeps the invariant and does not lower the
/// score.
pub proof fn lemma_destroyed(g: GameView, slot: int, shape: BurstShape)
    requires
        g.wf(),
        0 <= slot < MAX_OBS,
        g.obstacles[slot].active,
        shape.wf(),
        shape.w == OBS_W,
        shape.h == OBS_H,
    ensures
        destroyed(g, slot, shape).plays_on_from(g),
        destroyed(g, slot, shape).core.same_screen(g.core),
        destroyed(g, slot, shape).core.player == g.core.player,
        !destroyed(g, slot, shape).obstacles[slot].active,
{
    let o = g.obstacles[slot];
    assert(o.wf());
    lemma_burst_wf(
        g.particles,
        g.core.rng.state,
        0,
        shape.count as int,
        (o.x + OBS_W / 2) as i32,
        (o.y + OBS_H / 2) as i32,
        shape,
    );
    lemma_obstacle_put(g.obstacles, slot, Obstacle { active: false, ..o });
}

/// A bomb's sweep over the obstacle slots keeps the invariant and does not
/// lower the score, and leaves no obstacle live from the slot where it
/// starts.
pub proof fn lemma_bomb_from(g: GameView, slot: int)
    requires
        g.wf(),
        0 <= slot,
    ensures
        bomb_from(g, slot).plays_on_from(g),
        bomb_from(g, slot).core.same_screen(g.core),
        bomb_from(g, slot).core.player == g.core.player,
        forall|j: int| slot <= j < MAX_OBS ==> !(#[trigger] bomb_from(g, slot).obstacles[j]).active,
        forall|j: int| 0 <= j < slot && j < MAX_OBS ==> (#[trigger] bomb_from(g, slot).obstacles[j])
            == g.obstacles[j],
    decreases g.obstacles.len() - slot,
{
    if slot < g.obstacles.len() {
        if g.obstacles[slot].active {
            let shape = BurstShape { w: OBS_W, h: OBS_H, spread: 3, count: 4 };
            lemma_destroyed(g, slot, shape);
            lemma_bomb_from(destroyed(g, slot, shape), slot + 1);
        } else {
            lemma_bomb_from(g, slot + 1);
        }
    }
}

/// A bomb's sweep scores the points for a hit once for every obstacle that
/// is live from the slot where it starts.
pub proof fn lemma_bomb_scores(g: GameView, slot: int)
    requires
        g.wf(),
        0 <= slot,
    ensures
        bomb_from(g, slot).core.score.score == awarded(
            g.core.score.score,
            SCORE_HIT * count_set_from(live_obstacles(g.obstacles), slot),
        ),
    decreases g.obstacles.len() - slot,
{
    if slot < g.obstacles.len() {
        if g.obstacles[slot].active {
            let shape = BurstShape { w: OBS_W, h: OBS_H, spread: 3, count: 4 };
            let next = destroyed(g, slot, shape);
            lemma_destroyed(g, slot, shape);
            lemma_bomb_scores(next, slot + 1);
            lemma_count_from_agrees(
                live_obstacles(next.obstacles),
                live_obstacles(g.obstacles),
                slot + 1,
            );
        } else {
            lemma_bomb_scores(g, slot + 1);
        }
    }
}

/// A bomb keeps the invariant, leaves no obstacle live, scores the points for
/// a hit once for every obstacle that was live, costs one charge and takes
/// the progress back to zero.
pub proof fn lemma_bombed(g: GameView)
    requires
        g.wf(),
        g.core.player.bombs > 0,
    ensures
        bombed(g).plays_on_from(g),
        bombed(g).core.same_screen(g.core),
        bombed(g).core.player.lives == g.core.player.lives,
        bombed(g).core.player.bombs == g.core.player.bombs - 1,
        bombed(g).core.score.progress() == 0,
        bombed(g).core.score.speed_base_score == bombed(g).core.score.score,
        bombed(g).core.score.score == awarded(
            g.core.score.score,
            SCORE_HIT * g.obstacle_count(),
        ),
        bombed(g).obstacle_count() == 0,
{
    let armed = GameView {
        core: Core {
            player: Player { bombs: (g.core.player.bombs - 1) as u8, ..g.core.player },
            ..g.core
        },
        ..g
    };
    lemma_bomb_from(armed, 0);
    lemma_bomb_scores(armed, 0);
    lemma_count_split(live_obstacles(g.obstacles), 0);
    lemma_none_set(live_obstacles(bombed(g).obstacles), MAX_OBS as int);
}

/// Firing the laser keeps the invariant and does not lower the score.
pub proof fn lemma_lasered(g: GameView)
    requires
        g.wf(),
    ensures
        lasered(g).0.plays_on_from(g),
        lasered(g).0.core.same_screen(g.core),
        lasered(g).0.core.player == g.core.player,
{
    lemma_nearest(g.obstacles, muzzle_x(g), PLAYER_Y as int, MAX_OBS as int);
    match nearest(g.obstacles, muzzle_x(g), PLAYER_Y as int) {
        Some(t) => {
            lemma_destroyed(g, t, BurstShape { w: OBS_W, h: OBS_H, spread: 3, count: 4 });
        },
        None => {},
    }
}

/// Firing a missile keeps the invariant and changes nothing but the missile
/// pool.
pub proof fn lemma_launched(g: GameView)
    requires
        g.wf(),
    ensures
        launched(g).plays_on_from(g),
        launched(g).core == g.core,
{
    let slot = first_set(free_missiles(g.missiles));
    lemma_first_set(free_missiles(g.missiles), 0);
    if slot < g.missiles.len() {
        lemma_missile_put(g.missiles, slot, new_missile(g));
    }
}

/// Serving the fire controls keeps the invariant and does not lower the
/// score.
pub proof fn lemma_fired(g: GameView, c: Controls)
    requires
        g.wf(),
    ensures
        fired(g, c).0.plays_on_from(g),
        fired(g, c).0.core.same_screen(g.core),
        fired(g, c).0.core.player == g.core.player,
{
    lemma_lasered(g);
    lemma_launched(g);
}

impl Game {
    /// Destroys the live obstacle in a slot, with a burst of the given shape.
    pub fn destroy_obstacle(&mut self, slot: usize, shape: BurstShape)
        requires
            old(self).wf(),
            slot < MAX_OBS,
            old(self).obstacles[slot as int].active,
            shape.wf(),
            shape.w == OBS_W,
            shape.h == OBS_H,
        ensures
            final(self)@ == destroyed(old(self)@, slot as int, shape),
            final(self).wf(),
            final(self).core.same_screen(old(self).core),
            final(self).core.score.score >= old(self).core.score.score,
    {
        let o = self.obstacles[slot];
        assert(old(self)@.obstacles[slot as int].wf());
        spawn_burst(
            &mut self.particles,
            &mut self.core.rng,
            o.x + OBS_W / 2,
            o.y + OBS_H / 2,
            shape,
        );
        self.obstacles[slot].active = false;
        self.core.score.award(SCORE_HIT);
        proof {
            let g = old(self)@;
            assert(self@.obstacles =~= g.obstacles.update(
                slot as int,
                Obstacle { active: false, ..o },
            ));
            lemma_destroyed(g, slot as int, shape);
        }
    }

    /// Sets off a bomb.
    pub fn detonate_bomb(&mut self)
        requires
            old(self).wf(),
            old(self).core.player.bombs > 0,
        ensures
            final(self)@ == bombed(old(self)@),
            final(self).wf(),
            final(self).core.same_screen(old(self).core),
            final(self).core.score.score >= old(self).core.score.score,
            final(self).core.player.bombs == old(self).core.player.bombs - 1,
            final(self).core.score.speed_base_score == final(self).core.score.score,
            final(self).core.score.score == awarded(
                old(self).core.score.score,
                SCORE_HIT * old(self)@.obstacle_count(),
            ),
            forall|j: int| 0 <= j < MAX_OBS ==> !(#[trigger] final(self).obstacles[j]).active,
    {
        proof {
            lemma_bombed(self@);
        }
        self.core.player.bombs = self.core.player.bombs - 1;
        let ghost start = self@;
        let mut i: usize = 0;
        while i < MAX_OBS
            invariant
                0 <= i <= MAX_OBS,
                self.wf(),
                self.core.same_screen(old(self).core),
                bomb_from(start, 0) == bomb_from(self@, i as int),
                self.core.score.score >= old(self).core.score.score,
                self.core.player.bombs == old(self).core.player.bombs - 1,
                forall|j: int| 0 <= j < i ==> !(#[trigger] self.obstacles[j]).active,
            decreases MAX_OBS - i,
        {
            if self.obstacles[i].active {
                self.destroy_obstacle(i, BurstShape::small_debris());
            }
            i += 1;
        }
        self.core.score.reset_baseline();
    }

    /// Fires the laser and returns the beam to draw, if it hit anything.
    pub fn fire_laser(&mut self) -> (beam: Option<Beam>)
        requires
            old(self).wf(),
        ensures
            final(self)@ == lasered(old(self)@).0,
            beam == lasered(old(self)@).1,
            final(self).wf(),
            final(self).core.same_screen(old(self).core),
            final(self).core.score.score >= old(self).core.score.score,
    {
        let mx: i32 = self.core.player.x + PLAYER_W / 2;
        match nearest_obstacle(&self.obstacles, mx, PLAYER_Y) {
            Some(t) => {
                let o = self.obstacles[t];
                assert(self@.obstacles[t as int].wf());
                self.destroy_obstacle(t, BurstShape::small_debris());
                Some(Beam { x0: mx, y0: PLAYER_Y, x1: o.x + OBS_W / 2, y1: o.y + OBS_H / 2 })
            },
            None => None,
        }
    }

    /// Fires a missile, if a slot is free.
    pub fn launch_missile(&mut self)
        requires
            old(self).wf(),
        ensures
            final(self)@ == launched(old(self)@),
            final(self).wf(),
            final(self).core.same_screen(old(self).core),
    {
        match first_free_missile(&self.missiles) {
            Some(slot) => {
                self.missiles[slot] = Missile {
                    x: self.core.player.x + PLAYER_W / 2 - MISSILE_W / 2,
                    y: PLAYER_Y - MISSILE_H,
                    active: true,
                    homing: self.core.timers.homing > 0,
                };
                proof {
                    let g = old(self)@;
                    assert(self@.missiles =~= g.missiles.update(slot as int, new_missile(g)));
                    lemma_launched(g);
                }
            },
            None => {},
        }
    }

    /// Serves the fire controls of a tick and returns the laser's beam, if it
    /// fired and hit.
    pub fn fire(&mut self, controls: &Controls) -> (beam: Option<Beam>)
        requires
            old(self).wf(),
        ensures
            final(self)@ == fired(old(self)@, *controls).0,
            beam == fired(old(self)@, *controls).1,
            final(self).wf(),
            final(self).core.same_screen(old(self).core),
            final(self).core.score.score >= old(self).core.score.score,
    {
        if self.core.timers.laser > 0 && controls.fire_held {
            self.fire_laser()
        } else if controls.fire {
            self.launch_missile();
            None
        } else {
            None
        }
    }
}

} // verus!
