//! Movement of the pooled entities: obstacles fall, gifts fall and age,
//! missiles climb and, when they are homing, steer towards the nearest
//! obstacle.

use vstd::prelude::*;
use crate::difficulty::MAX_SPEED;
use crate::entities::{
    Gift, Missile, Obstacle, GIFT_SPEED, HUD_H, MAX_GIFTS, MAX_MISSILES, MAX_OBS, MISSILE_H,
    MISSILE_SPEED, MISSILE_W, OBS_W, SCREEN_H, SCREEN_W,
};
use crate::pools::{count_set, count_set_upto, gifts_wf, missiles_wf, obstacles_wf};
use crate::targeting::{lemma_nearest, nearest, nearest_obstacle};

verus! {

/// Most pixels that a homing missile moves sideways in one tick.
pub const HOMING_MAX_TURN: i32 = 6;

/// An obstacle one tick later: a live one has fallen by `speed`, and has left
/// the pool if that took it below the screen.
pub open spec fn fallen(o: Obstacle, speed: int) -> Obstacle {
    if o.active {
        Obstacle { y: (o.y + speed) as i32, active: o.y + speed <= SCREEN_H, ..o }
    } else {
        o
    }
}

/// The obstacle pool one tick later.
pub open spec fn fall_all(pool: Seq<Obstacle>, speed: int) -> Seq<Obstacle> {
    Seq::new(pool.len(), |i: int| fallen(pool[i], speed))
}

/// Which obstacles fall below the screen in this tick.
pub open spec fn passing(pool: Seq<Obstacle>, speed: int) -> Seq<bool> {
    Seq::new(pool.len(), |i: int| pool[i].active && pool[i].y + speed > SCREEN_H)
}

/// A gift one tick later: a live one has fallen and aged, and has left the
/// pool if its life ran out.
pub open spec fn gift_fallen(g: Gift) -> Gift {
    if g.active {
        let life = if g.life > 0 {
            (g.life - 1) as u8
        } else {
            0u8
        };
        Gift { y: (g.y + GIFT_SPEED) as i32, life, active: life != 0, ..g }
    } else {
        g
    }
}

/// The gift pool one tick later.
pub open spec fn gifts_fall_all(pool: Seq<Gift>) -> Seq<Gift> {
    Seq::new(pool.len(), |i: int| gift_fallen(pool[i]))
}

/// Division that rounds towards zero, for a positive divisor.
pub open spec fn toward_zero(a: int, b: int) -> int
    recommends
        b > 0,
{
    if a >= 0 {
        a / b
    } else {
        -((-a) / b)
    }
}

/// The number of ticks after which a missile on row `my` meets a target on
/// row `ty` that falls at `speed`: the rows between them over the speed at
/// which they close, and at least one.
pub open spec fn intercept_frames(my: int, ty: int, speed: int) -> int {
    if my - ty > 0 && (my - ty) / (MISSILE_SPEED + speed) > 1 {
        (my - ty) / (MISSILE_SPEED + speed)
    } else {
        1
    }
}

/// The sideways step of a homing missile whose target is `dx` pixels to its
/// side and `frames` ticks away: the offset spread over the ticks, no more
/// than the largest turn; and one pixel towards the target where that would
/// be nothing although the target is off to the side.
pub open spec fn turn(dx: int, frames: int) -> int
    recommends
        frames > 0,
{
    let raw = toward_zero(dx, frames);
    let capped = if raw > HOMING_MAX_TURN {
        HOMING_MAX_TURN as int
    } else if raw < -HOMING_MAX_TURN {
        -HOMING_MAX_TURN as int
    } else {
        raw
    };
    if capped == 0 && dx > 0 {
        1
    } else if capped == 0 && dx < 0 {
        -1
    } else {
        capped
    }
}

/// The sideways step of a missile in this tick. Only a live homing missile
/// steers, and only while an obstacle is live: towards the one nearest to its
/// centre.
pub open spec fn steering(m: Missile, pool: Seq<Obstacle>, speed: int) -> int {
    if m.active && m.homing {
        match nearest(pool, m.x + MISSILE_W / 2, m.y + MISSILE_H / 2) {
            Some(t) => turn(
                pool[t].x + OBS_W / 2 - (m.x + MISSILE_W / 2),
                intercept_frames(m.y as int, pool[t].y as int, speed),
            ),
            None => 0,
        }
    } else {
        0
    }
}

/// A missile one tick later: a live one has steered and climbed, and has left
/// the pool if it is wholly above the play field.
pub open spec fn flown(m: Missile, pool: Seq<Obstacle>, speed: int) -> Missile {
    if m.active {
        Missile {
            x: (m.x + steering(m, pool, speed)) as i32,
            y: (m.y - MISSILE_SPEED) as i32,
            active: !(m.y - MISSILE_SPEED + MISSILE_H < HUD_H),
            ..m
        }
    } else {
        m
    }
}

/// The missile pool one tick later.
pub open spec fn fly_all(pool: Seq<Missile>, obstacles: Seq<Obstacle>, speed: int) -> Seq<
    Missile,
> {
    Seq::new(pool.len(), |i: int| flown(pool[i], obstacles, speed))
}

/// A turn never overshoots: it points towards the target and is no longer
/// than the offset or the largest turn.
pub proof fn lemma_turn_bounds(dx: int, frames: int)
    requires
        frames >= 1,
    ensures
        dx > 0 ==> 0 < turn(dx, frames) <= dx,
        dx < 0 ==> dx <= turn(dx, frames) < 0,
        dx == 0 ==> turn(dx, frames) == 0,
        -HOMING_MAX_TURN <= turn(dx, frames) <= HOMING_MAX_TURN,
{
    if dx >= 0 {
        assert(0 <= dx / frames <= dx) by (nonlinear_arith)
            requires
                dx >= 0,
                frames >= 1,
        ;
    } else {
        assert(0 <= (-dx) / frames <= -dx) by (nonlinear_arith)
            requires
                dx < 0,
                frames >= 1,
        ;
    }
}

/// Obstacles stay on the screen as they fall: one that would leave it
/// leaves the pool.
pub proof fn lemma_fall_wf(pool: Seq<Obstacle>, speed: int)
    requires
        obstacles_wf(pool),
        0 <= speed <= MAX_SPEED,
    ensures
        fall_all(pool, speed).len() == pool.len(),
        obstacles_wf(fall_all(pool, speed)),
{
    let after = fall_all(pool, speed);
    assert forall|j: int| 0 <= j < pool.len() implies (#[trigger] after[j]).wf() by {
        assert(pool[j].wf());
    }
}

/// Gifts stay on the screen and alive as they fall: one whose life runs out
/// leaves the pool.
pub proof fn lemma_gifts_fall_wf(pool: Seq<Gift>)
    requires
        gifts_wf(pool),
    ensures
        gifts_fall_all(pool).len() == pool.len(),
        gifts_wf(gifts_fall_all(pool)),
{
    let after = gifts_fall_all(pool);
    assert forall|j: int| 0 <= j < pool.len() implies (#[trigger] after[j]).wf() by {
        assert(pool[j].wf());
    }
}

/// A missile on the screen stays on it while it steers towards an obstacle
/// on the screen.
pub proof fn lemma_steering_bounds(m: Missile, pool: Seq<Obstacle>, speed: int)
    requires
        m.wf(),
        obstacles_wf(pool),
        0 <= speed <= MAX_SPEED,
    ensures
        m.active ==> 0 <= m.x + steering(m, pool, speed) <= SCREEN_W - MISSILE_W,
        -HOMING_MAX_TURN <= steering(m, pool, speed) <= HOMING_MAX_TURN,
{
    if m.active && m.homing {
        let px = m.x + MISSILE_W / 2;
        let py = m.y + MISSILE_H / 2;
        lemma_nearest(pool, px, py, pool.len() as int);
        match nearest(pool, px, py) {
            Some(t) => {
                assert(pool[t].wf());
                lemma_turn_bounds(
                    pool[t].x + OBS_W / 2 - (m.x + MISSILE_W / 2),
                    intercept_frames(m.y as int, pool[t].y as int, speed),
                );
            },
            None => {},
        }
    }
}

/// Missiles stay on the screen as they fly: one that is wholly above the
/// play field leaves the pool.
pub proof fn lemma_fly_wf(pool: Seq<Missile>, obstacles: Seq<Obstacle>, speed: int)
    requires
        missiles_wf(pool),
        obstacles_wf(obstacles),
        0 <= speed <= MAX_SPEED,
    ensures
        fly_all(pool, obstacles, speed).len() == pool.len(),
        missiles_wf(fly_all(pool, obstacles, speed)),
{
    let after = fly_all(pool, obstacles, speed);
    assert forall|j: int| 0 <= j < pool.len() implies (#[trigger] after[j]).wf() by {
        assert(pool[j].wf());
        lemma_steering_bounds(pool[j], obstacles, speed);
    }
}

/// Lets every live obstacle fall by `speed` and returns how many fell below
/// the screen.
pub fn move_obstacles(pool: &mut [Obstacle; MAX_OBS], speed: i32) -> (passed: u32)
    requires
        obstacles_wf(old(pool)@),
        0 <= speed <= MAX_SPEED,
    ensures
        final(pool)@ == fall_all(old(pool)@, speed as int),
        passed == count_set(passing(old(pool)@, speed as int)),
        passed <= MAX_OBS,
        obstacles_wf(final(pool)@),
{
    let mut passed: u32 = 0;
    let mut i: usize = 0;
    while i < MAX_OBS
        invariant
            0 <= i <= MAX_OBS,
            0 <= speed <= MAX_SPEED,
            obstacles_wf(old(pool)@),
            forall|j: int| 0 <= j < i ==> pool@[j] == fallen(old(pool)@[j], speed as int),
            forall|j: int| i <= j < MAX_OBS ==> pool@[j] == old(pool)@[j],
            passed <= i,
            passed == count_set_upto(passing(old(pool)@, speed as int), i as int),
        decreases MAX_OBS - i,
    {
        if pool[i].active {
            assert(old(pool)@[i as int].wf());
            let y: i32 = pool[i].y + speed;
            pool[i].y = y;
            if y > SCREEN_H {
                pool[i].active = false;
                passed += 1;
            }
        }
        i += 1;
    }
    assert(pool@ =~= fall_all(old(pool)@, speed as int));
    proof {
        lemma_fall_wf(old(pool)@, speed as int);
    }
    passed
}

/// Lets every live gift fall and age by one tick.
pub fn move_gifts(pool: &mut [Gift; MAX_GIFTS])
    requires
        gifts_wf(old(pool)@),
    ensures
        final(pool)@ == gifts_fall_all(old(pool)@),
        gifts_wf(final(pool)@),
{
    let mut i: usize = 0;
    while i < MAX_GIFTS
        invariant
            0 <= i <= MAX_GIFTS,
            gifts_wf(old(pool)@),
            forall|j: int| 0 <= j < i ==> pool@[j] == gift_fallen(old(pool)@[j]),
            forall|j: int| i <= j < MAX_GIFTS ==> pool@[j] == old(pool)@[j],
        decreases MAX_GIFTS - i,
    {
        if pool[i].active {
            assert(old(pool)@[i as int].wf());
            let g = pool[i];
            let life: u8 = g.life.saturating_sub(1);
            pool[i] = Gift { x: g.x, y: g.y + GIFT_SPEED, life, active: life != 0 };
        }
        i += 1;
    }
    assert(pool@ =~= gifts_fall_all(old(pool)@));
    proof {
        lemma_gifts_fall_wf(old(pool)@);
    }
}

/// The sideways step of a live homing missile in this tick.
pub fn steer_missile(m: &Missile, obstacles: &[Obstacle; MAX_OBS], speed: i32) -> (t: i32)
    requires
        m.active,
        m.homing,
        m.wf(),
        obstacles_wf(obstacles@),
        0 <= speed <= MAX_SPEED,
    ensures
        t == steering(*m, obstacles@, speed as int),
        0 <= m.x + t <= SCREEN_W - MISSILE_W,
{
    match nearest_obstacle(obstacles, m.x + MISSILE_W / 2, m.y + MISSILE_H / 2) {
        None => 0,
        Some(i) => {
            let target = obstacles[i];
            assert(target.wf());
            let dx: i32 = target.x + OBS_W / 2 - (m.x + MISSILE_W / 2);
            let rows: i32 = m.y - target.y;
            let closing: i32 = MISSILE_SPEED + speed;
            let mut frames: i32 = 1;
            if rows > 0 {
                let f: i32 = rows / closing;
                if f > 1 {
                    frames = f;
                }
            }
            let raw: i32 = if dx >= 0 {
                dx / frames
            } else {
                -((-dx) / frames)
            };
            proof {
                lemma_turn_bounds(dx as int, frames as int);
            }
            let capped: i32 = if raw > HOMING_MAX_TURN {
                HOMING_MAX_TURN
            } else if raw < -HOMING_MAX_TURN {
                -HOMING_MAX_TURN
            } else {
                raw
            };
            if capped == 0 && dx > 0 {
                1
            } else if capped == 0 && dx < 0 {
                -1
            } else {
                capped
            }
        },
    }
}

/// Lets every live missile steer and climb for one tick.
pub fn move_missiles(
    pool: &mut [Missile; MAX_MISSILES],
    obstacles: &[Obstacle; MAX_OBS],
    speed: i32,
)
    requires
        missiles_wf(old(pool)@),
        obstacles_wf(obstacles@),
        0 <= speed <= MAX_SPEED,
    ensures
        final(pool)@ == fly_all(old(pool)@, obstacles@, speed as int),
        missiles_wf(final(pool)@),
{
    let mut i: usize = 0;
    while i < MAX_MISSILES
        invariant
            0 <= i <= MAX_MISSILES,
            0 <= speed <= MAX_SPEED,
            missiles_wf(old(pool)@),
            obstacles_wf(obstacles@),
            forall|j: int|
                0 <= j < i ==> pool@[j] == flown(old(pool)@[j], obstacles@, speed as int),
            forall|j: int| i <= j < MAX_MISSILES ==> pool@[j] == old(pool)@[j],
            forall|j: int| 0 <= j < i ==> (#[trigger] pool@[j]).wf(),
        decreases MAX_MISSILES - i,
    {
        if pool[i].active {
            assert(old(pool)@[i as int].wf());
            let m = pool[i];
            let t: i32 = if m.homing {
                steer_missile(&m, obstacles, speed)
            } else {
                0
            };
            let y: i32 = m.y - MISSILE_SPEED;
            pool[i] = Missile { x: m.x + t, y, active: !(y + MISSILE_H < HUD_H), homing: m.homing };
        }
        i += 1;
    }
    assert(pool@ =~= fly_all(old(pool)@, obstacles@, speed as int));
}

} // verus!
