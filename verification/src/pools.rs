//! Fixed-capacity entity pools: which slots are live, first-fit allocation
//! and occupancy.
//!
//! A pool is an array of slots. A free slot is found by scanning from the
//! front; with capacities of a few dozen at most the linear scan is the
//! simplest thing that works, and it makes the slot that a spawn takes a
//! function of the pool alone.

use vstd::prelude::*;
use crate::entities::{Gift, Missile, Obstacle, Particle, MAX_GIFTS, MAX_MISSILES, MAX_OBS};

verus! {

/// The least index from `i` on at which a flag is set, or the length where
/// none is.
pub open spec fn first_set_from(flags: Seq<bool>, i: int) -> int
    decreases flags.len() - i,
{
    if i < 0 || i >= flags.len() {
        flags.len() as int
    } else if flags[i] {
        i
    } else {
        first_set_from(flags, i + 1)
    }
}

/// The least index at which a flag is set, or the length where none is.
pub open spec fn first_set(flags: Seq<bool>) -> int {
    first_set_from(flags, 0)
}

/// How many of the first `n` flags are set.
pub open spec fn count_set_upto(flags: Seq<bool>, n: int) -> nat
    decreases n,
{
    if n <= 0 || n > flags.len() {
        0
    } else if flags[n - 1] {
        count_set_upto(flags, n - 1) + 1
    } else {
        count_set_upto(flags, n - 1)
    }
}

/// How many flags are set.
pub open spec fn count_set(flags: Seq<bool>) -> nat {
    count_set_upto(flags, flags.len() as int)
}

/// `first_set_from` is the least set index from `i` on: nothing between `i`
/// and it is set, and it is set itself unless it is the length.
pub proof fn lemma_first_set(flags: Seq<bool>, i: int)
    requires
        0 <= i <= flags.len(),
    ensures
        i <= first_set_from(flags, i) <= flags.len(),
        first_set_from(flags, i) < flags.len() ==> flags[first_set_from(flags, i)],
        forall|j: int| i <= j < first_set_from(flags, i) ==> !flags[j],
    decreases flags.len() - i,
{
    if i < flags.len() && !flags[i] {
        lemma_first_set(flags, i + 1);
    }
}

/// No more flags are set among the first `n` than there are.
pub proof fn lemma_count_bounded(flags: Seq<bool>, n: int)
    requires
        0 <= n <= flags.len(),
    ensures
        count_set_upto(flags, n) <= n,
    decreases n,
{
    if n > 0 {
        lemma_count_bounded(flags, n - 1);
    }
}

/// Where none of the first `n` flags is set, their count is zero.
pub proof fn lemma_none_set(flags: Seq<bool>, n: int)
    requires
        0 <= n <= flags.len(),
        forall|j: int| 0 <= j < n ==> !flags[j],
    ensures
        count_set_upto(flags, n) == 0,
    decreases n,
{
    if n > 0 {
        lemma_none_set(flags, n - 1);
    }
}

/// How many flags are set from index `i` on.
pub open spec fn count_set_from(flags: Seq<bool>, i: int) -> nat
    decreases flags.len() - i,
{
    if i < 0 || i >= flags.len() {
        0
    } else if flags[i] {
        count_set_from(flags, i + 1) + 1
    } else {
        count_set_from(flags, i + 1)
    }
}

/// The flags before an index and those from it on make up all of them.
pub proof fn lemma_count_split(flags: Seq<bool>, i: int)
    requires
        0 <= i <= flags.len(),
    ensures
        count_set_upto(flags, i) + count_set_from(flags, i) == count_set(flags),
    decreases flags.len() - i,
{
    if i < flags.len() {
        lemma_count_split(flags, i + 1);
    }
}

/// The count from an index on looks only at the flags from that index on.
pub proof fn lemma_count_from_agrees(a: Seq<bool>, b: Seq<bool>, i: int)
    requires
        a.len() == b.len(),
        forall|j: int| i <= j < a.len() ==> a[j] == b[j],
    ensures
        count_set_from(a, i) == count_set_from(b, i),
    decreases a.len() - i,
{
    if 0 <= i < a.len() {
        lemma_count_from_agrees(a, b, i + 1);
    }
}

/// The count of the first `n` flags looks only at those flags.
pub proof fn lemma_count_upto_agrees(a: Seq<bool>, b: Seq<bool>, n: int)
    requires
        a.len() == b.len(),
        forall|j: int| 0 <= j < n ==> a[j] == b[j],
    ensures
        count_set_upto(a, n) == count_set_upto(b, n),
    decreases n,
{
    if 0 < n <= a.len() {
        lemma_count_upto_agrees(a, b, n - 1);
    }
}

/// Clearing one flag that is set takes one off the count.
pub proof fn lemma_count_cleared(flags: Seq<bool>, i: int)
    requires
        0 <= i < flags.len(),
        flags[i],
    ensures
        count_set(flags.update(i, false)) + 1 == count_set(flags),
{
    let cleared = flags.update(i, false);
    lemma_count_split(flags, i);
    lemma_count_split(cleared, i);
    lemma_count_upto_agrees(cleared, flags, i);
    lemma_count_from_agrees(cleared, flags, i + 1);
}

/// Which obstacle slots are live.
pub open spec fn live_obstacles(pool: Seq<Obstacle>) -> Seq<bool> {
    Seq::new(pool.len(), |i: int| pool[i].active)
}

/// Which obstacle slots are free.
pub open spec fn free_obstacles(pool: Seq<Obstacle>) -> Seq<bool> {
    Seq::new(pool.len(), |i: int| !pool[i].active)
}

/// Which missile slots are live.
pub open spec fn live_missiles(pool: Seq<Missile>) -> Seq<bool> {
    Seq::new(pool.len(), |i: int| pool[i].active)
}

/// Which missile slots are free.
pub open spec fn free_missiles(pool: Seq<Missile>) -> Seq<bool> {
    Seq::new(pool.len(), |i: int| !pool[i].active)
}

/// Which gift slots are live.
pub open spec fn live_gifts(pool: Seq<Gift>) -> Seq<bool> {
    Seq::new(pool.len(), |i: int| pool[i].active)
}

/// Which gift slots are free.
pub open spec fn free_gifts(pool: Seq<Gift>) -> Seq<bool> {
    Seq::new(pool.len(), |i: int| !pool[i].active)
}

/// Which particle slots are live.
pub open spec fn live_particles(pool: Seq<Particle>) -> Seq<bool> {
    Seq::new(pool.len(), |i: int| pool[i].life > 0)
}

/// Every live obstacle lies within the screen.
pub open spec fn obstacles_wf(pool: Seq<Obstacle>) -> bool {
    forall|i: int| 0 <= i < pool.len() ==> (#[trigger] pool[i]).wf()
}

/// Every live missile lies within the screen.
pub open spec fn missiles_wf(pool: Seq<Missile>) -> bool {
    forall|i: int| 0 <= i < pool.len() ==> (#[trigger] pool[i]).wf()
}

/// Every live gift lies within the screen and has life left.
pub open spec fn gifts_wf(pool: Seq<Gift>) -> bool {
    forall|i: int| 0 <= i < pool.len() ==> (#[trigger] pool[i]).wf()
}

/// Putting an obstacle that is within its bounds into a slot keeps the
/// pool within its bounds.
pub proof fn lemma_obstacle_put(pool: Seq<Obstacle>, i: int, o: Obstacle)
    requires
        obstacles_wf(pool),
        0 <= i < pool.len(),
        o.wf(),
    ensures
        obstacles_wf(pool.update(i, o)),
{
    assert forall|j: int| 0 <= j < pool.len() implies (#[trigger] pool.update(i, o)[j]).wf() by {
        assert(pool[j].wf());
    }
}

/// Putting a missile that is within its bounds into a slot keeps the pool
/// within its bounds.
pub proof fn lemma_missile_put(pool: Seq<Missile>, i: int, m: Missile)
    requires
        missiles_wf(pool),
        0 <= i < pool.len(),
        m.wf(),
    ensures
        missiles_wf(pool.update(i, m)),
{
    assert forall|j: int| 0 <= j < pool.len() implies (#[trigger] pool.update(i, m)[j]).wf() by {
        assert(pool[j].wf());
    }
}

/// Putting a gift that is within its bounds into a slot keeps the pool
/// within its bounds.
pub proof fn lemma_gift_put(pool: Seq<Gift>, i: int, g: Gift)
    requires
        gifts_wf(pool),
        0 <= i < pool.len(),
        g.wf(),
    ensures
        gifts_wf(pool.update(i, g)),
{
    assert forall|j: int| 0 <= j < pool.len() implies (#[trigger] pool.update(i, g)[j]).wf() by {
        assert(pool[j].wf());
    }
}

/// The first free obstacle slot, if the pool is not full.
pub fn first_free_obstacle(pool: &[Obstacle; MAX_OBS]) -> (r: Option<usize>)
    ensures
        match r {
            Some(i) => i == first_set(free_obstacles(pool@)) && i < MAX_OBS
                && !pool[i as int].active,
            None => first_set(free_obstacles(pool@)) == MAX_OBS,
        },
{
    let mut i: usize = 0;
    while i < MAX_OBS
        invariant
            0 <= i <= MAX_OBS,
            first_set(free_obstacles(pool@)) == first_set_from(free_obstacles(pool@), i as int),
        decreases MAX_OBS - i,
    {
        if !pool[i].active {
            return Some(i);
        }
        i += 1;
    }
    None
}

/// The first free missile slot, if the pool is not full.
pub fn first_free_missile(pool: &[Missile; MAX_MISSILES]) -> (r: Option<usize>)
    ensures
        match r {
            Some(i) => i == first_set(free_missiles(pool@)) && i < MAX_MISSILES
                && !pool[i as int].active,
            None => first_set(free_missiles(pool@)) == MAX_MISSILES,
        },
{
    let mut i: usize = 0;
    while i < MAX_MISSILES
        invariant
            0 <= i <= MAX_MISSILES,
            first_set(free_missiles(pool@)) == first_set_from(free_missiles(pool@), i as int),
        decreases MAX_MISSILES - i,
    {
        if !pool[i].active {
            return Some(i);
        }
        i += 1;
    }
    None
}

/// The first free gift slot, if the pool is not full.
pub fn first_free_gift(pool: &[Gift; MAX_GIFTS]) -> (r: Option<usize>)
    ensures
        match r {
            Some(i) => i == first_set(free_gifts(pool@)) && i < MAX_GIFTS
                && !pool[i as int].active,
            None => first_set(free_gifts(pool@)) == MAX_GIFTS,
        },
{
    let mut i: usize = 0;
    while i < MAX_GIFTS
        invariant
            0 <= i <= MAX_GIFTS,
            first_set(free_gifts(pool@)) == first_set_from(free_gifts(pool@), i as int),
        decreases MAX_GIFTS - i,
    {
        if !pool[i].active {
            return Some(i);
        }
        i += 1;
    }
    None
}

/// The number of live obstacles.
pub fn count_obstacles(pool: &[Obstacle; MAX_OBS]) -> (n: usize)
    ensures
        n == count_set(live_obstacles(pool@)),
        n <= MAX_OBS,
{
    let mut n: usize = 0;
    let mut i: usize = 0;
    while i < MAX_OBS
        invariant
            0 <= i <= MAX_OBS,
            n <= i,
            n == count_set_upto(live_obstacles(pool@), i as int),
        decreases MAX_OBS - i,
    {
        if pool[i].active {
            n += 1;
        }
        i += 1;
    }
    n
}

} // verus!
