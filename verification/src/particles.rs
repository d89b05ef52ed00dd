//! Debris particles: the bursts that a destruction or a pickup throws up, and
//! their flight. Particles are only drawn; nothing collides with them.

use vstd::prelude::*;
use crate::entities::{
    Particle, GIFT_H, GIFT_W, MAX_PARTICLES, OBS_H, OBS_W, PARTICLE_LIFE, PARTICLE_MAX_SPEED,
    SCREEN_H, SCREEN_W,
};
use crate::rng::{draw, lemma_step_keeps_nonzero, xorshift32, Rng};

verus! {

/// The shape of a burst: the box around the centre in which its particles
/// start, their largest speed on either axis, and how many there are at most.
#[derive(Clone, Copy, Debug, PartialEq, Eq, Structural)]
pub struct BurstShape {
    pub w: i32,
    pub h: i32,
    pub spread: i32,
    pub count: u8,
}

impl BurstShape {
    /// A shape has a box with an inside and a speed that particles may have.
    pub open spec fn wf(&self) -> bool {
        self.w > 0 && self.h > 0 && 0 <= self.spread <= PARTICLE_MAX_SPEED
    }

    /// Whether a burst of this shape around a centre starts inside the area
    /// in which particles may start.
    pub open spec fn fits(&self, cx: i32, cy: i32) -> bool {
        &&& 0 <= cx - self.w / 2
        &&& cx - self.w / 2 + self.w - 1 <= SCREEN_W
        &&& 0 <= cy - self.h / 2
        &&& cy - self.h / 2 + self.h - 1 <= SCREEN_H + GIFT_H
    }

    /// The debris of an obstacle that a missile has hit: six particles.
    pub fn debris() -> (s: BurstShape)
        ensures
            s == (BurstShape { w: OBS_W, h: OBS_H, spread: 3, count: 6 }),
            s.wf(),
    {
        BurstShape { w: OBS_W, h: OBS_H, spread: 3, count: 6 }
    }

    /// The smaller debris of an obstacle that a bomb or the laser has
    /// destroyed: four particles.
    pub fn small_debris() -> (s: BurstShape)
        ensures
            s == (BurstShape { w: OBS_W, h: OBS_H, spread: 3, count: 4 }),
            s.wf(),
    {
        BurstShape { w: OBS_W, h: OBS_H, spread: 3, count: 4 }
    }

    /// The sparkle of a gift that a missile has picked up: four slow
    /// particles.
    pub fn sparkle() -> (s: BurstShape)
        ensures
            s == (BurstShape { w: GIFT_W, h: GIFT_H, spread: 2, count: 4 }),
            s.wf(),
    {
        BurstShape { w: GIFT_W, h: GIFT_H, spread: 2, count: 4 }
    }
}

/// The generator's state after the four draws that one particle takes.
pub open spec fn after_spark(rng: u32) -> u32 {
    xorshift32(xorshift32(xorshift32(xorshift32(rng))))
}

/// The particle that a burst makes from the generator's state `rng`. Four
/// draws place it: its offset in the box on each axis, then its speed on each
/// axis. A particle that would stand still is sent upwards instead.
pub open spec fn spark(rng: u32, cx: i32, cy: i32, shape: BurstShape) -> Particle {
    let r1 = xorshift32(rng);
    let r2 = xorshift32(r1);
    let r3 = xorshift32(r2);
    let dx = draw(r2, 2 * shape.spread + 1) - shape.spread;
    let dy = draw(r3, 2 * shape.spread + 1) - shape.spread;
    Particle {
        x: (cx + draw(rng, shape.w as int) - shape.w / 2) as i32,
        y: (cy + draw(r1, shape.h as int) - shape.h / 2) as i32,
        dx: dx as i32,
        dy: if dx == 0 && dy == 0 {
            -1i32
        } else {
            dy as i32
        },
        life: PARTICLE_LIFE,
    }
}

/// The pool and the generator after a burst has filled free slots from slot
/// `i` on, at most `left` of them, in slot order. A burst that finds fewer free
/// slots than it has particles makes fewer.
pub open spec fn burst_from(
    pool: Seq<Particle>,
    rng: u32,
    i: int,
    left: int,
    cx: i32,
    cy: i32,
    shape: BurstShape,
) -> (Seq<Particle>, u32)
    decreases pool.len() - i,
{
    if i < 0 || i >= pool.len() || left <= 0 {
        (pool, rng)
    } else if pool[i].life == 0 {
        burst_from(
            pool.update(i, spark(rng, cx, cy, shape)),
            after_spark(rng),
            i + 1,
            left - 1,
            cx,
            cy,
            shape,
        )
    } else {
        burst_from(pool, rng, i + 1, left, cx, cy, shape)
    }
}

/// The pool and the generator after a whole burst around `(cx, cy)`.
pub open spec fn burst(pool: Seq<Particle>, rng: u32, cx: i32, cy: i32, shape: BurstShape) -> (
    Seq<Particle>,
    u32,
) {
    burst_from(pool, rng, 0, shape.count as int, cx, cy, shape)
}

/// A particle one tick later: a live one has moved by its speed and lost one
/// tick of life.
pub open spec fn drifted(p: Particle) -> Particle {
    if p.life == 0 {
        p
    } else {
        Particle { x: (p.x + p.dx) as i32, y: (p.y + p.dy) as i32, life: (p.life - 1) as u8, ..p }
    }
}

/// The pool one tick later.
pub open spec fn drift_all(pool: Seq<Particle>) -> Seq<Particle> {
    Seq::new(pool.len(), |i: int| drifted(pool[i]))
}

/// Every slot of the pool holds a particle within its bounds.
pub open spec fn particles_wf(pool: Seq<Particle>) -> bool {
    forall|i: int| 0 <= i < pool.len() ==> (#[trigger] pool[i]).wf()
}

/// Putting a particle that is within its bounds into a slot keeps the pool
/// within its bounds.
pub proof fn lemma_particle_put(pool: Seq<Particle>, i: int, p: Particle)
    requires
        particles_wf(pool),
        0 <= i < pool.len(),
        p.wf(),
    ensures
        particles_wf(pool.update(i, p)),
{
    assert forall|j: int| 0 <= j < pool.len() implies (#[trigger] pool.update(i, p)[j]).wf() by {
        assert(pool[j].wf());
    }
}

/// A particle of a burst that fits starts within its bounds, and the four
/// draws leave the generator in a non-zero state.
pub proof fn lemma_spark_wf(rng: u32, cx: i32, cy: i32, shape: BurstShape)
    requires
        shape.wf(),
        shape.fits(cx, cy),
    ensures
        spark(rng, cx, cy, shape).wf(),
        spark(rng, cx, cy, shape).life == PARTICLE_LIFE,
        rng != 0 ==> after_spark(rng) != 0,
{
    let r1 = xorshift32(rng);
    let r2 = xorshift32(r1);
    let r3 = xorshift32(r2);
    lemma_step_keeps_nonzero(rng);
    lemma_step_keeps_nonzero(r1);
    lemma_step_keeps_nonzero(r2);
    lemma_step_keeps_nonzero(r3);
}

/// A burst that fits keeps the pool's size, leaves every particle within its
/// bounds and the generator in a non-zero state.
pub proof fn lemma_burst_wf(
    pool: Seq<Particle>,
    rng: u32,
    i: int,
    left: int,
    cx: i32,
    cy: i32,
    shape: BurstShape,
)
    requires
        shape.wf(),
        shape.fits(cx, cy),
        particles_wf(pool),
    ensures
        burst_from(pool, rng, i, left, cx, cy, shape).0.len() == pool.len(),
        particles_wf(burst_from(pool, rng, i, left, cx, cy, shape).0),
        rng != 0 ==> burst_from(pool, rng, i, left, cx, cy, shape).1 != 0,
    decreases pool.len() - i,
{
    if !(i < 0 || i >= pool.len() || left <= 0) {
        if pool[i].life == 0 {
            lemma_spark_wf(rng, cx, cy, shape);
            lemma_particle_put(pool, i, spark(rng, cx, cy, shape));
            lemma_burst_wf(
                pool.update(i, spark(rng, cx, cy, shape)),
                after_spark(rng),
                i + 1,
                left - 1,
                cx,
                cy,
                shape,
            );
        } else {
            lemma_burst_wf(pool, rng, i + 1, left, cx, cy, shape);
        }
    }
}

/// Particles stay within their bounds as they drift.
pub proof fn lemma_drift_wf(pool: Seq<Particle>)
    requires
        particles_wf(pool),
    ensures
        drift_all(pool).len() == pool.len(),
        particles_wf(drift_all(pool)),
{
    let after = drift_all(pool);
    assert forall|j: int| 0 <= j < pool.len() implies (#[trigger] after[j]).wf() by {
        assert(pool[j].wf());
    }
}

/// Makes one particle of a burst, with four draws.
pub fn make_spark(rng: &mut Rng, cx: i32, cy: i32, shape: BurstShape) -> (p: Particle)
    requires
        shape.wf(),
        shape.fits(cx, cy),
    ensures
        p == spark(old(rng).state, cx, cy, shape),
        final(rng).state == after_spark(old(rng).state),
        old(rng).wf() ==> final(rng).wf(),
        p.wf(),
        p.life == PARTICLE_LIFE,
{
    let ox: i32 = rng.range(shape.w);
    let oy: i32 = rng.range(shape.h);
    let dx: i32 = rng.range(2 * shape.spread + 1) - shape.spread;
    let mut dy: i32 = rng.range(2 * shape.spread + 1) - shape.spread;
    if dx == 0 && dy == 0 {
        dy = -1;
    }
    Particle { x: cx + ox - shape.w / 2, y: cy + oy - shape.h / 2, dx, dy, life: PARTICLE_LIFE }
}

/// Throws a burst around `(cx, cy)`: fills the first free slots of the pool,
/// at most `shape.count` of them.
pub fn spawn_burst(
    pool: &mut [Particle; MAX_PARTICLES],
    rng: &mut Rng,
    cx: i32,
    cy: i32,
    shape: BurstShape,
)
    requires
        shape.wf(),
        shape.fits(cx, cy),
    ensures
        (final(pool)@, final(rng).state) == burst(old(pool)@, old(rng).state, cx, cy, shape),
        old(rng).wf() ==> final(rng).wf(),
        particles_wf(old(pool)@) ==> particles_wf(final(pool)@),
{
    let mut i: usize = 0;
    let mut left: u8 = shape.count;
    while i < MAX_PARTICLES && left > 0
        invariant
            0 <= i <= MAX_PARTICLES,
            shape.wf(),
            shape.fits(cx, cy),
            burst(old(pool)@, old(rng).state, cx, cy, shape) == burst_from(
                pool@,
                rng.state,
                i as int,
                left as int,
                cx,
                cy,
                shape,
            ),
            old(rng).wf() ==> rng.wf(),
            particles_wf(old(pool)@) ==> particles_wf(pool@),
        decreases MAX_PARTICLES - i,
    {
        if pool[i].life == 0 {
            let p = make_spark(rng, cx, cy, shape);
            pool[i] = p;
            left -= 1;
        }
        i += 1;
    }
}

/// Moves every live particle by its speed and takes one tick off its life.
pub fn update_particles(pool: &mut [Particle; MAX_PARTICLES])
    requires
        particles_wf(old(pool)@),
    ensures
        final(pool)@ == drift_all(old(pool)@),
        particles_wf(final(pool)@),
{
    let mut i: usize = 0;
    while i < MAX_PARTICLES
        invariant
            0 <= i <= MAX_PARTICLES,
            forall|j: int| 0 <= j < i ==> pool@[j] == drifted(old(pool)@[j]),
            forall|j: int| i <= j < MAX_PARTICLES ==> pool@[j] == old(pool)@[j],
            forall|j: int| 0 <= j < MAX_PARTICLES ==> (#[trigger] pool@[j]).wf(),
        decreases MAX_PARTICLES - i,
    {
        let p = pool[i];
        if p.life > 0 {
            pool[i] = Particle {
                x: p.x + p.dx,
                y: p.y + p.dy,
                dx: p.dx,
                dy: p.dy,
                life: p.life - 1,
            };
        }
        i += 1;
    }
    assert(pool@ =~= drift_all(old(pool)@));
}

} // verus!
