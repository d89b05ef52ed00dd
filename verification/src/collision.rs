//! The collision passes of a tick, in their fixed order: missiles against
//! obstacles, missiles against gifts, the ship against obstacles.
//!
//! Missiles are taken in slot order, and each one takes the first live target
//! that it overlaps, in slot order too. A target that an earlier missile has
//! taken is gone for the later ones, so of two missiles on the same obstacle
//! only the first scores.

use vstd::prelude::*;
use crate::entities::{
    Gift, Missile, Obstacle, GIFT_H, GIFT_W, MAX_GIFTS, MAX_MISSILES, MAX_OBS, MISSILE_H,
    MISSILE_W, OBS_H, OBS_W, PLAYER_H, PLAYER_W, PLAYER_Y,
};
use crate::game::{Core, Game, GameState, GameView};
use crate::geometry::{aabb_overlap, overlaps};
use crate::particles::{burst, lemma_burst_wf, spawn_burst, BurstShape};
use crate::player::{awarded, Player, INVINCIBLE_TICKS, SCORE_HIT};
use crate::pools::{
    first_set, first_set_from, lemma_count_cleared, lemma_first_set, lemma_gift_put,
    lemma_missile_put, lemma_obstacle_put, live_missiles, live_obstacles, obstacles_wf,
};
use crate::powerups::{
    grant, granted_obstacles, granted_player, granted_timers, powerup_of, Powerup, POWERUP_KINDS,
};
use crate::rng::{draw, lemma_step_keeps_nonzero, xorshift32, Rng};
use crate::weapons::{destroyed, lemma_destroyed};

verus! {

/// Which obstacles are live and overlap a box at `(x, y)` of size `(w, h)`.
pub open spec fn obstacles_struck(pool: Seq<Obstacle>, x: int, y: int, w: int, h: int) -> Seq<
    bool,
> {
    Seq::new(
        pool.len(),
        |i: int|
            pool[i].active && overlaps(
                x,
                y,
                w,
                h,
                pool[i].x as int,
                pool[i].y as int,
                OBS_W as int,
                OBS_H as int,
            ),
    )
}

/// Which gifts are live and overlap a missile.
pub open spec fn gifts_struck(pool: Seq<Gift>, m: Missile) -> Seq<bool> {
    Seq::new(
        pool.len(),
        |i: int|
            pool[i].active && overlaps(
                m.x as int,
                m.y as int,
                MISSILE_W as int,
                MISSILE_H as int,
                pool[i].x as int,
                pool[i].y as int,
                GIFT_W as int,
                GIFT_H as int,
            ),
    )
}

/// The first live obstacle that a missile overlaps, or the pool's length.
pub open spec fn obstacle_hit_by(pool: Seq<Obstacle>, m: Missile) -> int {
    first_set(obstacles_struck(pool, m.x as int, m.y as int, MISSILE_W as int, MISSILE_H as int))
}

/// The first live obstacle that the ship overlaps, or the pool's length.
pub open spec fn obstacle_hit_by_ship(pool: Seq<Obstacle>, player_x: int) -> int {
    first_set(obstacles_struck(pool, player_x, PLAYER_Y as int, PLAYER_W as int, PLAYER_H as int))
}

/// The session after the missile in slot `slot` has hit the obstacle in slot
/// `target`: the obstacle is destroyed with a burst of debris, and the
/// missile is spent.
pub open spec fn struck(g: GameView, slot: int, target: int) -> GameView {
    GameView {
        missiles: g.missiles.update(slot, Missile { active: false, ..g.missiles[slot] }),
        ..destroyed(g, target, BurstShape { w: OBS_W, h: OBS_H, spread: 3, count: 6 })
    }
}

/// The session after the missiles from slot `slot` on have been tested
/// against the obstacles. A live missile that overlaps an obstacle hits the
/// first such obstacle.
pub open spec fn shot_from(g: GameView, slot: int) -> GameView
    decreases g.missiles.len() - slot,
{
    if slot < 0 || slot >= g.missiles.len() {
        g
    } else {
        let target = obstacle_hit_by(g.obstacles, g.missiles[slot]);
        if g.missiles[slot].active && target < g.obstacles.len() {
            shot_from(struck(g, slot, target), slot + 1)
        } else {
            shot_from(g, slot + 1)
        }
    }
}

/// The session after a missile in slot `slot` has picked up the gift in slot
/// `gift`: both are gone, a roll of the die selects the power-up, which is
/// granted, and a sparkle rises around the gift's centre.
pub open spec fn picked_up(g: GameView, slot: int, gift: int) -> GameView {
    let m = g.missiles[slot];
    let p = g.gifts[gift];
    let kind = powerup_of(draw(g.core.rng.state, POWERUP_KINDS as int));
    let thrown = burst(
        g.particles,
        xorshift32(g.core.rng.state),
        (p.x + GIFT_W / 2) as i32,
        (p.y + GIFT_H / 2) as i32,
        BurstShape { w: GIFT_W, h: GIFT_H, spread: 2, count: 4 },
    );
    GameView {
        core: Core {
            rng: Rng { state: thrown.1 },
            player: granted_player(kind, g.core.player),
            timers: granted_timers(kind, g.core.timers),
            ..g.core
        },
        obstacles: granted_obstacles(kind, g.obstacles),
        missiles: g.missiles.update(slot, Missile { active: false, ..m }),
        particles: thrown.0,
        gifts: g.gifts.update(gift, Gift { active: false, ..p }),
    }
}

/// The session after the missiles from slot `slot` on have been tested
/// against the gifts. A live missile that overlaps a gift picks up the first
/// such gift.
pub open spec fn picked_from(g: GameView, slot: int) -> GameView
    decreases g.missiles.len() - slot,
{
    if slot < 0 || slot >= g.missiles.len() {
        g
    } else {
        let m = g.missiles[slot];
        let target = first_set(gifts_struck(g.gifts, m));
        if m.active && target < g.gifts.len() {
            picked_from(picked_up(g, slot, target), slot + 1)
        } else {
            picked_from(g, slot + 1)
        }
    }
}

/// Whether the ship is safe from obstacles: within the window after a hit,
/// or shielded.
pub open spec fn shielded(g: GameView) -> bool {
    g.core.player.invincible > 0 || g.core.timers.shield > 0
}

/// The session after the ship has been tested against the obstacles. While
/// the window after a hit is open it only counts down. A ship that is not
/// safe and overlaps an obstacle takes one hit, from the first such
/// obstacle: the obstacle is gone, a life is lost and the window opens. With
/// the last life the game is over. No more than one life is lost in a tick,
/// however many obstacles overlap the ship.
pub open spec fn rammed(g: GameView) -> GameView {
    let target = obstacle_hit_by_ship(g.obstacles, g.core.player.x as int);
    if g.core.player.invincible > 0 {
        GameView {
            core: Core {
                player: Player {
                    invincible: (g.core.player.invincible - 1) as u32,
                    ..g.core.player
                },
                ..g.core
            },
            ..g
        }
    } else if g.core.timers.shield == 0 && target < g.obstacles.len() {
        let lives = if g.core.player.lives > 0 {
            (g.core.player.lives - 1) as u8
        } else {
            0u8
        };
        GameView {
            core: Core {
                player: Player { lives, invincible: INVINCIBLE_TICKS, ..g.core.player },
                state: if lives == 0 {
                    GameState::GameOver
                } else {
                    g.core.state
                },
                entering: lives == 0 || g.core.entering,
                ..g.core
            },
            obstacles: g.obstacles.update(
                target,
                Obstacle { active: false, ..g.obstacles[target] },
            ),
            ..g
        }
    } else {
        g
    }
}

/// A hit keeps the invariant, takes one missile and one obstacle out of play
/// and scores the points for a hit once.
pub proof fn lemma_struck(g: GameView, slot: int, target: int)
    requires
        g.wf(),
        0 <= slot < MAX_MISSILES,
        0 <= target < MAX_OBS,
        g.missiles[slot].active,
        g.obstacles[target].active,
    ensures
        struck(g, slot, target).plays_on_from(g),
        struck(g, slot, target).core.same_screen(g.core),
        struck(g, slot, target).core.player == g.core.player,
        struck(g, slot, target).core.timers == g.core.timers,
        struck(g, slot, target).core.score.score == awarded(g.core.score.score, SCORE_HIT as int),
        struck(g, slot, target).obstacle_count() + 1 == g.obstacle_count(),
        struck(g, slot, target).missile_count() + 1 == g.missile_count(),
{
    let next = struck(g, slot, target);
    lemma_destroyed(g, target, BurstShape { w: OBS_W, h: OBS_H, spread: 3, count: 6 });
    lemma_missile_put(g.missiles, slot, Missile { active: false, ..g.missiles[slot] });
    assert(live_obstacles(next.obstacles) =~= live_obstacles(g.obstacles).update(target, false));
    assert(live_missiles(next.missiles) =~= live_missiles(g.missiles).update(slot, false));
    lemma_count_cleared(live_obstacles(g.obstacles), target);
    lemma_count_cleared(live_missiles(g.missiles), slot);
}

/// The pass of the missiles against the obstacles keeps the invariant and
/// does not lower the score.
pub proof fn lemma_shot_from(g: GameView, slot: int)
    requires
        g.wf(),
        0 <= slot,
    ensures
        shot_from(g, slot).plays_on_from(g),
        shot_from(g, slot).core.same_screen(g.core),
        shot_from(g, slot).core.player == g.core.player,
        shot_from(g, slot).core.timers == g.core.timers,
    decreases g.missiles.len() - slot,
{
    if slot < g.missiles.len() {
        let m = g.missiles[slot];
        let target = obstacle_hit_by(g.obstacles, m);
        lemma_first_set(
            obstacles_struck(
                g.obstacles,
                m.x as int,
                m.y as int,
                MISSILE_W as int,
                MISSILE_H as int,
            ),
            0,
        );
        if m.active && target < g.obstacles.len() {
            lemma_struck(g, slot, target);
            lemma_shot_from(struck(g, slot, target), slot + 1);
        } else {
            lemma_shot_from(g, slot + 1);
        }
    }
}

/// In the pass of the missiles against the obstacles every hit spends one
/// missile on one obstacle: as many obstacles are destroyed as missiles are
/// spent, and each scores the points for a hit once. So no obstacle is scored
/// twice, however many missiles overlap it.
pub proof fn lemma_shot_counts(g: GameView, slot: int)
    requires
        g.wf(),
        0 <= slot,
    ensures
        shot_from(g, slot).obstacle_count() <= g.obstacle_count(),
        g.obstacle_count() - shot_from(g, slot).obstacle_count() == g.missile_count() - shot_from(
            g,
            slot,
        ).missile_count(),
        shot_from(g, slot).core.score.score == awarded(
            g.core.score.score,
            SCORE_HIT * (g.obstacle_count() - shot_from(g, slot).obstacle_count()),
        ),
    decreases g.missiles.len() - slot,
{
    if slot < g.missiles.len() {
        let m = g.missiles[slot];
        let target = obstacle_hit_by(g.obstacles, m);
        lemma_first_set(
            obstacles_struck(
                g.obstacles,
                m.x as int,
                m.y as int,
                MISSILE_W as int,
                MISSILE_H as int,
            ),
            0,
        );
        if m.active && target < g.obstacles.len() {
            lemma_struck(g, slot, target);
            lemma_shot_counts(struck(g, slot, target), slot + 1);
        } else {
            lemma_shot_counts(g, slot + 1);
        }
    }
}

/// What a power-up grants keeps the ship, the timers and the obstacles
/// within their bounds, and takes no life.
pub proof fn lemma_granted(kind: Powerup, g: GameView)
    requires
        g.wf(),
    ensures
        granted_player(kind, g.core.player).wf(),
        granted_player(kind, g.core.player).lives >= g.core.player.lives,
        granted_timers(kind, g.core.timers).wf(),
        granted_obstacles(kind, g.obstacles).len() == g.obstacles.len(),
        obstacles_wf(granted_obstacles(kind, g.obstacles)),
{
    assert forall|j: int| 0 <= j < g.obstacles.len() implies (#[trigger] granted_obstacles(
        kind,
        g.obstacles,
    )[j]).wf() by {
        assert(g.obstacles[j].wf());
    }
}

/// A pickup keeps the invariant and leaves the score as it is.
pub proof fn lemma_picked_up(g: GameView, slot: int, gift: int)
    requires
        g.wf(),
        0 <= slot < MAX_MISSILES,
        0 <= gift < MAX_GIFTS,
        g.gifts[gift].active,
    ensures
        picked_up(g, slot, gift).plays_on_from(g),
        picked_up(g, slot, gift).core.same_screen(g.core),
        picked_up(g, slot, gift).core.score == g.core.score,
        picked_up(g, slot, gift).core.player.lives >= g.core.player.lives,
{
    let p = g.gifts[gift];
    assert(p.wf());
    let kind = powerup_of(draw(g.core.rng.state, POWERUP_KINDS as int));
    lemma_granted(kind, g);
    lemma_step_keeps_nonzero(g.core.rng.state);
    lemma_burst_wf(
        g.particles,
        xorshift32(g.core.rng.state),
        0,
        4,
        (p.x + GIFT_W / 2) as i32,
        (p.y + GIFT_H / 2) as i32,
        BurstShape { w: GIFT_W, h: GIFT_H, spread: 2, count: 4 },
    );
    lemma_missile_put(g.missiles, slot, Missile { active: false, ..g.missiles[slot] });
    lemma_gift_put(g.gifts, gift, Gift { active: false, ..p });
}

/// The pass of the missiles against the gifts keeps the invariant and leaves
/// the score as it is.
pub proof fn lemma_picked_from(g: GameView, slot: int)
    requires
        g.wf(),
        0 <= slot,
    ensures
        picked_from(g, slot).plays_on_from(g),
        picked_from(g, slot).core.same_screen(g.core),
        picked_from(g, slot).core.score == g.core.score,
        picked_from(g, slot).core.player.lives >= g.core.player.lives,
    decreases g.missiles.len() - slot,
{
    if slot < g.missiles.len() {
        let m = g.missiles[slot];
        lemma_first_set(gifts_struck(g.gifts, m), 0);
        let target = first_set(gifts_struck(g.gifts, m));
        if m.active && target < g.gifts.len() {
            lemma_picked_up(g, slot, target);
            lemma_picked_from(picked_up(g, slot, target), slot + 1);
        } else {
            lemma_picked_from(g, slot + 1);
        }
    }
}

/// The pass of the ship against the obstacles keeps the invariant and the
/// score, and costs no more than one life. The game goes on exactly when a
/// life is left.
pub proof fn lemma_rammed(g: GameView)
    requires
        g.wf(),
    ensures
        rammed(g).plays_on_from(g),
        rammed(g).core.score == g.core.score,
        rammed(g).core.player.lives <= g.core.player.lives,
        rammed(g).core.player.lives + 1 >= g.core.player.lives,
        g.core.state is Playing ==> (rammed(g).core.state is Playing <==> rammed(
            g,
        ).core.player.lives > 0),
        g.core.state is Playing && !(rammed(g).core.state is Playing) ==> rammed(g).core.state
            is GameOver && rammed(g).core.entering,
{
    let target = obstacle_hit_by_ship(g.obstacles, g.core.player.x as int);
    lemma_first_set(
        obstacles_struck(
            g.obstacles,
            g.core.player.x as int,
            PLAYER_Y as int,
            PLAYER_W as int,
            PLAYER_H as int,
        ),
        0,
    );
    if target < g.obstacles.len() {
        lemma_obstacle_put(g.obstacles, target, Obstacle { active: false, ..g.obstacles[target] });
    }
}

/// A ship that is not safe and overlaps a live obstacle takes exactly one
/// hit: it loses one life, the window after a hit opens at its full length,
/// and the first obstacle that it overlaps is gone while all others stay.
pub proof fn lemma_hit(g: GameView, slot: int)
    requires
        g.wf(),
        !shielded(g),
        g.core.player.lives > 0,
        0 <= slot < MAX_OBS,
        g.obstacles[slot].active,
        overlaps(
            g.core.player.x as int,
            PLAYER_Y as int,
            PLAYER_W as int,
            PLAYER_H as int,
            g.obstacles[slot].x as int,
            g.obstacles[slot].y as int,
            OBS_W as int,
            OBS_H as int,
        ),
    ensures
        rammed(g).core.player.lives == g.core.player.lives - 1,
        rammed(g).core.player.invincible == INVINCIBLE_TICKS,
        0 <= obstacle_hit_by_ship(g.obstacles, g.core.player.x as int) <= slot,
        !rammed(g).obstacles[obstacle_hit_by_ship(g.obstacles, g.core.player.x as int)].active,
        forall|j: int|
            0 <= j < MAX_OBS && j != obstacle_hit_by_ship(g.obstacles, g.core.player.x as int)
                ==> (#[trigger] rammed(g).obstacles[j]) == g.obstacles[j],
        rammed(g).core.state == if g.core.player.lives == 1 {
            GameState::GameOver
        } else {
            g.core.state
        },
{
    let flags = obstacles_struck(
        g.obstacles,
        g.core.player.x as int,
        PLAYER_Y as int,
        PLAYER_W as int,
        PLAYER_H as int,
    );
    lemma_first_set(flags, 0);
    assert(flags[slot]);
}

/// A ship that is safe, within the window after a hit or under the shield,
/// takes no damage: no life is lost and no obstacle is removed.
pub proof fn lemma_safe(g: GameView)
    requires
        g.wf(),
        shielded(g),
    ensures
        rammed(g).core.player.lives == g.core.player.lives,
        rammed(g).obstacles == g.obstacles,
        rammed(g).core.state == g.core.state,
        rammed(g).core.timers == g.core.timers,
{
}

/// Finds the first live obstacle that overlaps a box.
pub fn first_obstacle_struck(pool: &[Obstacle; MAX_OBS], x: i32, y: i32, w: i32, h: i32) -> (r:
    Option<usize>)
    ensures
        match r {
            Some(i) => i == first_set(
                obstacles_struck(pool@, x as int, y as int, w as int, h as int),
            ) && i < MAX_OBS && pool[i as int].active,
            None => first_set(obstacles_struck(pool@, x as int, y as int, w as int, h as int))
                == MAX_OBS,
        },
{
    let ghost flags = obstacles_struck(pool@, x as int, y as int, w as int, h as int);
    let mut i: usize = 0;
    while i < MAX_OBS
        invariant
            0 <= i <= MAX_OBS,
            flags == obstacles_struck(pool@, x as int, y as int, w as int, h as int),
            first_set(flags) == first_set_from(flags, i as int),
        decreases MAX_OBS - i,
    {
        if pool[i].active && aabb_overlap(x, y, w, h, pool[i].x, pool[i].y, OBS_W, OBS_H) {
            return Some(i);
        }
        i += 1;
    }
    None
}

/// Finds the first live gift that overlaps a missile.
pub fn first_gift_struck(pool: &[Gift; MAX_GIFTS], m: &Missile) -> (r: Option<usize>)
    ensures
        match r {
            Some(i) => i == first_set(gifts_struck(pool@, *m)) && i < MAX_GIFTS
                && pool[i as int].active,
            None => first_set(gifts_struck(pool@, *m)) == MAX_GIFTS,
        },
{
    let ghost flags = gifts_struck(pool@, *m);
    let mut i: usize = 0;
    while i < MAX_GIFTS
        invariant
            0 <= i <= MAX_GIFTS,
            flags == gifts_struck(pool@, *m),
            first_set(flags) == first_set_from(flags, i as int),
        decreases MAX_GIFTS - i,
    {
        if pool[i].active && aabb_overlap(
            m.x,
            m.y,
            MISSILE_W,
            MISSILE_H,
            pool[i].x,
            pool[i].y,
            GIFT_W,
            GIFT_H,
        ) {
            return Some(i);
        }
        i += 1;
    }
    None
}

impl Game {
    /// Lets the missile in a slot hit the obstacle in a slot.
    pub fn strike(&mut self, slot: usize, target: usize)
        requires
            old(self).wf(),
            slot < MAX_MISSILES,
            target < MAX_OBS,
            old(self).missiles[slot as int].active,
            old(self).obstacles[target as int].active,
        ensures
            final(self)@ == struck(old(self)@, slot as int, target as int),
            final(self).wf(),
            final(self).core.same_screen(old(self).core),
            final(self).core.score.score == awarded(old(self).core.score.score, SCORE_HIT as int),
            final(self)@.obstacle_count() + 1 == old(self)@.obstacle_count(),
            final(self)@.missile_count() + 1 == old(self)@.missile_count(),
    {
        self.destroy_obstacle(target, BurstShape::debris());
        self.missiles[slot].active = false;
        proof {
            let g = old(self)@;
            assert(self@.missiles =~= g.missiles.update(
                slot as int,
                Missile { active: false, ..g.missiles[slot as int] },
            ));
            lemma_struck(g, slot as int, target as int);
        }
    }

    /// Tests every live missile against the obstacles. As many obstacles are
    /// destroyed as missiles are spent, and each scores once.
    pub fn collide_missiles_obstacles(&mut self)
        requires
            old(self).wf(),
        ensures
            final(self)@ == shot_from(old(self)@, 0),
            final(self).wf(),
            final(self).core.same_screen(old(self).core),
            final(self).core.score.score >= old(self).core.score.score,
            old(self)@.obstacle_count() - final(self)@.obstacle_count()
                == old(self)@.missile_count() - final(self)@.missile_count(),
            final(self).core.score.score == awarded(
                old(self).core.score.score,
                SCORE_HIT * (old(self)@.obstacle_count() - final(self)@.obstacle_count()),
            ),
    {
        proof {
            lemma_shot_counts(self@, 0);
        }
        let mut i: usize = 0;
        while i < MAX_MISSILES
            invariant
                0 <= i <= MAX_MISSILES,
                self.wf(),
                self.core.same_screen(old(self).core),
                shot_from(old(self)@, 0) == shot_from(self@, i as int),
                self.core.score.score >= old(self).core.score.score,
            decreases MAX_MISSILES - i,
        {
            let m = self.missiles[i];
            if m.active {
                match first_obstacle_struck(&self.obstacles, m.x, m.y, MISSILE_W, MISSILE_H) {
                    Some(t) => {
                        self.strike(i, t);
                    },
                    None => {},
                }
            }
            i += 1;
        }
    }

    /// Lets the missile in a slot pick up the gift in a slot.
    pub fn pick_up(&mut self, slot: usize, gift: usize)
        requires
            old(self).wf(),
            slot < MAX_MISSILES,
            gift < MAX_GIFTS,
            old(self).gifts[gift as int].active,
        ensures
            final(self)@ == picked_up(old(self)@, slot as int, gift as int),
            final(self).wf(),
            final(self).core.same_screen(old(self).core),
            final(self).core.score == old(self).core.score,
    {
        let p = self.gifts[gift];
        assert(self@.gifts[gift as int].wf());
        self.missiles[slot].active = false;
        self.gifts[gift].active = false;
        let roll: i32 = self.core.rng.range(POWERUP_KINDS);
        let kind = Powerup::from_roll(roll);
        grant(kind, &mut self.core.player, &mut self.core.timers, &mut self.obstacles);
        spawn_burst(
            &mut self.particles,
            &mut self.core.rng,
            p.x + GIFT_W / 2,
            p.y + GIFT_H / 2,
            BurstShape::sparkle(),
        );
        proof {
            let g = old(self)@;
            assert(self@.missiles =~= g.missiles.update(
                slot as int,
                Missile { active: false, ..g.missiles[slot as int] },
            ));
            assert(self@.gifts =~= g.gifts.update(gift as int, Gift { active: false, ..p }));
            lemma_picked_up(g, slot as int, gift as int);
        }
    }

    /// Tests every live missile against the gifts.
    pub fn collide_missiles_gifts(&mut self)
        requires
            old(self).wf(),
        ensures
            final(self)@ == picked_from(old(self)@, 0),
            final(self).wf(),
            final(self).core.same_screen(old(self).core),
            final(self).core.score == old(self).core.score,
    {
        let mut i: usize = 0;
        while i < MAX_MISSILES
            invariant
                0 <= i <= MAX_MISSILES,
                self.wf(),
                self.core.same_screen(old(self).core),
                picked_from(old(self)@, 0) == picked_from(self@, i as int),
                self.core.score == old(self).core.score,
            decreases MAX_MISSILES - i,
        {
            let m = self.missiles[i];
            if m.active {
                match first_gift_struck(&self.gifts, &m) {
                    Some(t) => {
                        self.pick_up(i, t);
                    },
                    None => {},
                }
            }
            i += 1;
        }
    }

    /// Tests the ship against the obstacles.
    pub fn collide_player(&mut self)
        requires
            old(self).wf(),
        ensures
            final(self)@ == rammed(old(self)@),
            final(self).wf(),
            final(self).core.score == old(self).core.score,
            final(self).core.player.lives <= old(self).core.player.lives,
            final(self).core.player.lives + 1 >= old(self).core.player.lives,
    {
        if self.core.player.invincible > 0 {
            self.core.player.invincible = self.core.player.invincible - 1;
        } else if self.core.timers.shield == 0 {
            match first_obstacle_struck(
                &self.obstacles,
                self.core.player.x,
                PLAYER_Y,
                PLAYER_W,
                PLAYER_H,
            ) {
                Some(t) => {
                    self.obstacles[t].active = false;
                    self.core.player.lives = self.core.player.lives.saturating_sub(1);
                    self.core.player.invincible = INVINCIBLE_TICKS;
                    if self.core.player.lives == 0 {
                        self.core.state = GameState::GameOver;
                        self.core.entering = true;
                    }
                    proof {
                        let g = old(self)@;
                        assert(self@.obstacles =~= g.obstacles.update(
                            t as int,
                            Obstacle { active: false, ..g.obstacles[t as int] },
                        ));
                        lemma_rammed(g);
                    }
                },
                None => {},
            }
        }
    }
}

} // verus!
