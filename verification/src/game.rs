//! The whole state of a session, its mathematical model and its invariant.

use vstd::prelude::*;
use crate::difficulty::BASE_INTERVAL;
use crate::entities::{
    Gift, Missile, Obstacle, Particle, MAX_BOMBS, MAX_GIFTS, MAX_LIVES, MAX_MISSILES, MAX_OBS,
    MAX_PARTICLES, PLAYER_W, SCREEN_W,
};
use crate::input::Buttons;
use crate::particles::particles_wf;
use crate::player::{Player, ScoreState, INVINCIBLE_TICKS};
use crate::pools::{
    count_set, gifts_wf, lemma_count_bounded, live_gifts, live_missiles, live_obstacles,
    live_particles, missiles_wf, obstacles_wf,
};
use crate::powerups::{PowerupTimers, POWERUP_TICKS};
use crate::rng::Rng;

verus! {

/// The seed of the generator at power-on. It is replaced by the clock at the
/// first button press.
pub const BOOT_SEED: u32 = 12345;

/// Ticks between two rolls for a gift.
pub const GIFT_INTERVAL: u32 = 200;

/// Chances in a hundred that a roll for a gift succeeds.
pub const GIFT_CHANCE: i32 = 15;

/// Ticks after which the autoplay leaves the game-over screen by itself.
pub const DEMO_GAMEOVER_TICKS: u32 = 40;

/// The three screens of a session.
#[derive(Clone, Copy, Debug, PartialEq, Eq, Structural)]
pub enum GameState {
    /// The title screen, waiting for a button.
    Title,
    /// A game is running.
    Playing,
    /// The game is over and its score is shown.
    GameOver,
}

/// What the status bar last showed, so that only what has changed is drawn
/// again. While `valid` is false nothing is shown yet and everything is
/// drawn.
#[derive(Clone, Copy, Debug, PartialEq, Eq, Structural)]
pub struct Hud {
    pub valid: bool,
    pub score: u32,
    pub lives: u8,
    pub bombs: u8,
    pub freeze: bool,
    pub homing: bool,
    pub laser: bool,
    pub shield: bool,
}

/// Everything in a session but the pools.
#[derive(Clone, Copy, Debug, PartialEq, Eq, Structural)]
pub struct Core {
    /// The screen that the next tick updates.
    pub state: GameState,
    /// The state has been entered and its entry actions have not run yet.
    pub entering: bool,
    /// The running or last game is played by the autoplay.
    pub demo_mode: bool,
    /// Ticks since power-on, wrapping.
    pub frame: u32,
    /// The pseudo-random source.
    pub rng: Rng,
    /// The generator has been reseeded from the clock.
    pub rng_seeded: bool,
    /// The button levels of the tick before.
    pub prev: Buttons,
    /// The ship.
    pub player: Player,
    /// The score.
    pub score: ScoreState,
    /// The power-up countdowns.
    pub timers: PowerupTimers,
    /// Ticks since the last obstacle was due.
    pub spawn_timer: u32,
    /// Ticks since the last gift, up to the gift interval.
    pub gift_timer: u32,
    /// Ticks that the autoplay has spent on the game-over screen.
    pub game_over_ticks: u32,
    /// What the status bar shows.
    pub hud: Hud,
}

impl Core {
    /// Whether two states of a session are on the same screen, at the same
    /// tick: what deals only with the field of play leaves all of this alone.
    pub open spec fn same_screen(&self, before: Core) -> bool {
        &&& self.state == before.state
        &&& self.entering == before.entering
        &&& self.demo_mode == before.demo_mode
        &&& self.frame == before.frame
        &&& self.rng_seeded == before.rng_seeded
        &&& self.prev == before.prev
        &&& self.hud == before.hud
        &&& self.game_over_ticks == before.game_over_ticks
        &&& self.score.high_score == before.score.high_score
    }
}

/// A session: the scalar state and the four pools. It is owned by the run
/// loop and changed only by its tick.
#[derive(Clone, Copy, Debug, PartialEq, Eq)]
pub struct Game {
    pub core: Core,
    pub obstacles: [Obstacle; MAX_OBS],
    pub missiles: [Missile; MAX_MISSILES],
    pub particles: [Particle; MAX_PARTICLES],
    pub gifts: [Gift; MAX_GIFTS],
}

/// The model of a session: the pools as sequences.
pub struct GameView {
    pub core: Core,
    pub obstacles: Seq<Obstacle>,
    pub missiles: Seq<Missile>,
    pub particles: Seq<Particle>,
    pub gifts: Seq<Gift>,
}

impl GameView {
    /// The invariant of a session: every pool has its capacity and every
    /// entity, the ship, the score, the timers and the generator are within
    /// their bounds; the spawn timers have not run past their intervals; and
    /// a game that is running has a life left.
    pub open spec fn wf(&self) -> bool {
        &&& self.obstacles.len() == MAX_OBS
        &&& self.missiles.len() == MAX_MISSILES
        &&& self.particles.len() == MAX_PARTICLES
        &&& self.gifts.len() == MAX_GIFTS
        &&& obstacles_wf(self.obstacles)
        &&& missiles_wf(self.missiles)
        &&& particles_wf(self.particles)
        &&& gifts_wf(self.gifts)
        &&& self.core.player.wf()
        &&& self.core.score.wf()
        &&& self.core.timers.wf()
        &&& self.core.rng.wf()
        &&& self.core.spawn_timer < BASE_INTERVAL
        &&& self.core.gift_timer <= GIFT_INTERVAL
        &&& self.core.game_over_ticks <= DEMO_GAMEOVER_TICKS
        &&& (self.core.state is Playing ==> self.core.player.lives > 0)
    }

    /// Whether this session can follow `before` in the course of a game: it
    /// meets the invariant, its score is no lower, and the best score is the
    /// same.
    pub open spec fn plays_on_from(&self, before: GameView) -> bool {
        &&& self.wf()
        &&& self.core.score.score >= before.core.score.score
        &&& self.core.score.high_score == before.core.score.high_score
    }

    /// The number of live obstacles.
    pub open spec fn obstacle_count(&self) -> nat {
        count_set(live_obstacles(self.obstacles))
    }

    /// The number of live missiles.
    pub open spec fn missile_count(&self) -> nat {
        count_set(live_missiles(self.missiles))
    }

    /// The number of live particles.
    pub open spec fn particle_count(&self) -> nat {
        count_set(live_particles(self.particles))
    }

    /// The number of live gifts.
    pub open spec fn gift_count(&self) -> nat {
        count_set(live_gifts(self.gifts))
    }
}

impl View for Game {
    type V = GameView;

    open spec fn view(&self) -> GameView {
        GameView {
            core: self.core,
            obstacles: self.obstacles@,
            missiles: self.missiles@,
            particles: self.particles@,
            gifts: self.gifts@,
        }
    }
}

impl Game {
    /// The invariant of a session, which every tick keeps.
    pub open spec fn wf(&self) -> bool {
        self@.wf()
    }

    /// Whether every entity in the pools is within its bounds.
    pub fn pools_valid(&self) -> (r: bool)
        ensures
            r == (obstacles_wf(self.obstacles@) && missiles_wf(self.missiles@) && particles_wf(
                self.particles@,
            ) && gifts_wf(self.gifts@)),
    {
        let mut i: usize = 0;
        while i < MAX_OBS
            invariant
                0 <= i <= MAX_OBS,
                forall|j: int| 0 <= j < i ==> (#[trigger] self.obstacles@[j]).wf(),
            decreases MAX_OBS - i,
        {
            if !self.obstacles[i].is_valid() {
                return false;
            }
            i += 1;
        }
        i = 0;
        while i < MAX_MISSILES
            invariant
                0 <= i <= MAX_MISSILES,
                obstacles_wf(self.obstacles@),
                forall|j: int| 0 <= j < i ==> (#[trigger] self.missiles@[j]).wf(),
            decreases MAX_MISSILES - i,
        {
            if !self.missiles[i].is_valid() {
                return false;
            }
            i += 1;
        }
        i = 0;
        while i < MAX_PARTICLES
            invariant
                0 <= i <= MAX_PARTICLES,
                obstacles_wf(self.obstacles@),
                missiles_wf(self.missiles@),
                forall|j: int| 0 <= j < i ==> (#[trigger] self.particles@[j]).wf(),
            decreases MAX_PARTICLES - i,
        {
            if !self.particles[i].is_valid() {
                return false;
            }
            i += 1;
        }
        i = 0;
        while i < MAX_GIFTS
            invariant
                0 <= i <= MAX_GIFTS,
                obstacles_wf(self.obstacles@),
                missiles_wf(self.missiles@),
                particles_wf(self.particles@),
                forall|j: int| 0 <= j < i ==> (#[trigger] self.gifts@[j]).wf(),
            decreases MAX_GIFTS - i,
        {
            if !self.gifts[i].is_valid() {
                return false;
            }
            i += 1;
        }
        true
    }

    /// Whether the session meets its invariant. A caller that builds or
    /// changes a session by hand can test it with this before a tick.
    pub fn is_valid(&self) -> (r: bool)
        ensures
            r == self.wf(),
    {
        let c = &self.core;
        let scalars: bool = c.player.x >= 0 && c.player.x <= SCREEN_W - PLAYER_W && c.player.lives
            <= MAX_LIVES && c.player.bombs <= MAX_BOMBS && c.player.invincible <= INVINCIBLE_TICKS
            && c.score.speed_base_score <= c.score.score && c.timers.freeze <= POWERUP_TICKS
            && c.timers.homing <= POWERUP_TICKS && c.timers.laser <= POWERUP_TICKS
            && c.timers.shield <= POWERUP_TICKS && c.rng.state != 0 && c.spawn_timer
            < BASE_INTERVAL && c.gift_timer <= GIFT_INTERVAL && c.game_over_ticks
            <= DEMO_GAMEOVER_TICKS;
        let alive: bool = match c.state {
            GameState::Playing => c.player.lives > 0,
            _ => true,
        };
        scalars && alive && self.pools_valid()
    }
}

/// In a session that meets its invariant no pool holds more than its
/// capacity, and lives and bombs are within their limits.
pub proof fn lemma_bounds(g: GameView)
    requires
        g.wf(),
    ensures
        g.obstacle_count() <= MAX_OBS,
        g.missile_count() <= MAX_MISSILES,
        g.particle_count() <= MAX_PARTICLES,
        g.gift_count() <= MAX_GIFTS,
        0 <= g.core.player.lives <= MAX_LIVES,
        0 <= g.core.player.bombs <= MAX_BOMBS,
        g.core.score.progress() >= 0,
{
    lemma_count_bounded(live_obstacles(g.obstacles), MAX_OBS as int);
    lemma_count_bounded(live_missiles(g.missiles), MAX_MISSILES as int);
    lemma_count_bounded(live_particles(g.particles), MAX_PARTICLES as int);
    lemma_count_bounded(live_gifts(g.gifts), MAX_GIFTS as int);
}

} // verus!
