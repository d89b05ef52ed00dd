//! Choosing a target among the live obstacles: the nearest one to a point,
//! for homing missiles and the laser, and the lowest one, for the autoplay.

use vstd::prelude::*;
use crate::entities::{Obstacle, MAX_OBS, OBS_H, OBS_W};

verus! {

/// The Manhattan distance from the centre of an obstacle to a point.
pub open spec fn distance(o: Obstacle, px: int, py: int) -> int {
    let dx = o.x + OBS_W / 2 - px;
    let dy = o.y + OBS_H / 2 - py;
    (if dx >= 0 {
        dx
    } else {
        -dx
    }) + (if dy >= 0 {
        dy
    } else {
        -dy
    })
}

/// The slot of the live obstacle nearest to a point among the first `n`
/// slots. Of two that are equally near, the one in the earlier slot is taken.
pub open spec fn nearest_upto(pool: Seq<Obstacle>, px: int, py: int, n: int) -> Option<int>
    decreases n,
{
    if n <= 0 || n > pool.len() {
        None
    } else {
        let best = nearest_upto(pool, px, py, n - 1);
        if pool[n - 1].active && (best is None || distance(pool[n - 1], px, py) < distance(
            pool[best.unwrap()],
            px,
            py,
        )) {
            Some(n - 1)
        } else {
            best
        }
    }
}

/// The slot of the live obstacle nearest to a point, if any is live.
pub open spec fn nearest(pool: Seq<Obstacle>, px: int, py: int) -> Option<int> {
    nearest_upto(pool, px, py, pool.len() as int)
}

/// The slot of the lowest live obstacle among the first `n` slots. Of two on
/// the same row, the one in the earlier slot is taken.
pub open spec fn lowest_upto(pool: Seq<Obstacle>, n: int) -> Option<int>
    decreases n,
{
    if n <= 0 || n > pool.len() {
        None
    } else {
        let best = lowest_upto(pool, n - 1);
        if pool[n - 1].active && (best is None || pool[n - 1].y > pool[best.unwrap()].y) {
            Some(n - 1)
        } else {
            best
        }
    }
}

/// The slot of the lowest live obstacle, the one that has come furthest, if
/// any is live.
pub open spec fn lowest(pool: Seq<Obstacle>) -> Option<int> {
    lowest_upto(pool, pool.len() as int)
}

/// What `nearest_upto` picks is live, no live obstacle among the first `n` is
/// nearer, and none in an earlier slot is as near. It picks nothing only when
/// none of them is live.
pub proof fn lemma_nearest(pool: Seq<Obstacle>, px: int, py: int, n: int)
    requires
        0 <= n <= pool.len(),
    ensures
        match nearest_upto(pool, px, py, n) {
            Some(b) => {
                &&& 0 <= b < n
                &&& pool[b].active
                &&& forall|j: int|
                    0 <= j < n && pool[j].active ==> distance(pool[b], px, py) <= distance(
                        #[trigger] pool[j],
                        px,
                        py,
                    )
                &&& forall|j: int|
                    0 <= j < b && pool[j].active ==> distance(pool[b], px, py) < distance(
                        #[trigger] pool[j],
                        px,
                        py,
                    )
            },
            None => forall|j: int| 0 <= j < n ==> !(#[trigger] pool[j]).active,
        },
    decreases n,
{
    if n > 0 {
        lemma_nearest(pool, px, py, n - 1);
    }
}

/// What `lowest_upto` picks is live, no live obstacle among the first `n` is
/// lower, and none in an earlier slot is as low. It picks nothing only when
/// none of them is live.
pub proof fn lemma_lowest(pool: Seq<Obstacle>, n: int)
    requires
        0 <= n <= pool.len(),
    ensures
        match lowest_upto(pool, n) {
            Some(b) => {
                &&& 0 <= b < n
                &&& pool[b].active
                &&& forall|j: int|
                    0 <= j < n && pool[j].active ==> pool[b].y >= (#[trigger] pool[j]).y
                &&& forall|j: int|
                    0 <= j < b && pool[j].active ==> pool[b].y > (#[trigger] pool[j]).y
            },
            None => forall|j: int| 0 <= j < n ==> !(#[trigger] pool[j]).active,
        },
    decreases n,
{
    if n > 0 {
        lemma_lowest(pool, n - 1);
    }
}

/// The distance from the centre of an obstacle to a point. It is taken in 64
/// bits, so no position overflows.
fn distance_to(o: &Obstacle, px: i32, py: i32) -> (d: i64)
    ensures
        d == distance(*o, px as int, py as int),
{
    let dx: i64 = o.x as i64 + (OBS_W / 2) as i64 - px as i64;
    let dy: i64 = o.y as i64 + (OBS_H / 2) as i64 - py as i64;
    let ax: i64 = if dx >= 0 {
        dx
    } else {
        -dx
    };
    let ay: i64 = if dy >= 0 {
        dy
    } else {
        -dy
    };
    ax + ay
}

/// Finds the live obstacle nearest to a point.
pub fn nearest_obstacle(pool: &[Obstacle; MAX_OBS], px: i32, py: i32) -> (r: Option<usize>)
    ensures
        match r {
            Some(i) => nearest(pool@, px as int, py as int) == Some(i as int) && i < MAX_OBS
                && pool[i as int].active,
            None => nearest(pool@, px as int, py as int) is None,
        },
{
    let mut best: Option<usize> = None;
    let mut best_d: i64 = 0;
    let mut i: usize = 0;
    while i < MAX_OBS
        invariant
            0 <= i <= MAX_OBS,
            match best {
                Some(b) => nearest_upto(pool@, px as int, py as int, i as int) == Some(b as int)
                    && b < i && pool[b as int].active && best_d == distance(
                    pool[b as int],
                    px as int,
                    py as int,
                ),
                None => nearest_upto(pool@, px as int, py as int, i as int) is None,
            },
        decreases MAX_OBS - i,
    {
        if pool[i].active {
            let d: i64 = distance_to(&pool[i], px, py);
            if best.is_none() || d < best_d {
                best = Some(i);
                best_d = d;
            }
        }
        i += 1;
    }
    best
}

/// Finds the lowest live obstacle.
pub fn lowest_obstacle(pool: &[Obstacle; MAX_OBS]) -> (r: Option<usize>)
    ensures
        match r {
            Some(i) => lowest(pool@) == Some(i as int) && i < MAX_OBS && pool[i as int].active,
            None => lowest(pool@) is None,
        },
{
    let mut best: Option<usize> = None;
    let mut best_y: i32 = 0;
    let mut i: usize = 0;
    while i < MAX_OBS
        invariant
            0 <= i <= MAX_OBS,
            match best {
                Some(b) => lowest_upto(pool@, i as int) == Some(b as int) && b < i
                    && pool[b as int].active && best_y == pool[b as int].y,
                None => lowest_upto(pool@, i as int) is None,
            },
        decreases MAX_OBS - i,
    {
        if pool[i].active {
            if best.is_none() || pool[i].y > best_y {
                best = Some(i);
                best_y = pool[i].y;
            }
        }
        i += 1;
    }
    best
}

} // verus!
