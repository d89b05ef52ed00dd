//! The session state machine: title screen, game, game-over screen, and the
//! tick that drives them.
//!
//! The run loop calls [`Game::tick`] once per tick with the button levels
//! that it sampled and the reading of a free-running clock. The tick changes
//! the session and returns a [`Frame`]: what the caller has to draw.

use vstd::prelude::*;
use crate::collision::{picked_from, rammed, shot_from};
use crate::demo::{demo_controls, demo_policy};
use crate::difficulty::{fall_speed, speed_at};
use crate::entities::{
    Gift, Missile, Obstacle, Particle, MAX_BOMBS, MAX_GIFTS, MAX_LIVES, MAX_MISSILES, MAX_OBS,
    MAX_PARTICLES,
};
use crate::game::{
    lemma_bounds, Core, Game, GameState, GameView, Hud, BOOT_SEED, DEMO_GAMEOVER_TICKS,
};
use crate::input::{controls_of, human_controls, pressed, Buttons, Controls};
use crate::motion::{
    fall_all, fly_all, gifts_fall_all, move_gifts, move_missiles, move_obstacles, passing,
};
use crate::particles::{drift_all, update_particles};
use crate::player::{awarded, steered, Player, ScoreState, SCORE_DODGE};
use crate::pools::count_set;
use crate::powerups::{ticked, PowerupTimers};
use crate::rng::{seeded, Rng};
use crate::spawn::{gift_spawned, obstacle_spawned};
use crate::weapons::{bombed, fired, Beam};

verus! {

/// What the caller has to draw after a tick.
#[derive(Clone, Copy, Debug, PartialEq, Eq)]
pub struct Frame {
    /// The screen that this tick updated.
    pub state: GameState,
    /// The screen was entered in this tick: clear the surface, draw the
    /// screen's fixed text and set the status indicator.
    pub entered: bool,
    /// The level of the status indicator: on for the duration of a game.
    pub indicator: bool,
    /// The autoplay was left in this tick: nothing was simulated and nothing
    /// is to be drawn.
    pub skipped: bool,
    /// Draw the play field again: all of it, every tick of a game.
    pub field: bool,
    /// The score in the status bar has changed.
    pub score_dirty: bool,
    /// The lives in the status bar have changed.
    pub lives_dirty: bool,
    /// The bombs in the status bar have changed.
    pub bombs_dirty: bool,
    /// The set of power-ups that are on has changed.
    pub powerups_dirty: bool,
    /// The laser's beam, in the tick in which it hit.
    pub beam: Option<Beam>,
    /// The phase of the flicker: what flickers is left out of the play field
    /// while this is off. A gift flickers while it fades, the ship while it
    /// is safe after a hit.
    pub blink: bool,
}

/// Ticks in one period of the flicker; it is on for the first half.
pub const BLINK_PERIOD: u32 = 4;

/// The phase of the flicker in the tick with a given number.
pub open spec fn blink_at(frame: u32) -> bool {
    frame % BLINK_PERIOD < BLINK_PERIOD / 2
}

/// The frame of a tick outside a game: at most the screen's entry.
pub open spec fn still_frame(state: GameState, entered: bool) -> Frame {
    Frame {
        state,
        entered,
        indicator: false,
        skipped: false,
        field: false,
        score_dirty: false,
        lives_dirty: false,
        bombs_dirty: false,
        powerups_dirty: false,
        beam: None,
        blink: false,
    }
}

/// The frame of the tick in which the autoplay is left.
pub open spec fn skipped_frame(entered: bool) -> Frame {
    Frame {
        state: GameState::Playing,
        entered,
        indicator: true,
        skipped: true,
        field: false,
        score_dirty: false,
        lives_dirty: false,
        bombs_dirty: false,
        powerups_dirty: false,
        beam: None,
        blink: false,
    }
}

/// What the status bar shows of a session.
pub open spec fn shown(g: GameView) -> Hud {
    Hud {
        valid: true,
        score: g.core.score.score,
        lives: g.core.player.lives,
        bombs: g.core.player.bombs,
        freeze: g.core.timers.freeze > 0,
        homing: g.core.timers.homing > 0,
        laser: g.core.timers.laser > 0,
        shield: g.core.timers.shield > 0,
    }
}

/// The frame of a tick of a game: the play field, the beam, and each part of
/// the status bar whose value differs from what the bar shows, or all parts
/// if the bar shows nothing yet.
pub open spec fn game_frame(g: GameView, entered: bool, beam: Option<Beam>) -> Frame {
    let old_hud = g.core.hud;
    let new_hud = shown(g);
    Frame {
        state: GameState::Playing,
        entered,
        indicator: true,
        skipped: false,
        field: true,
        score_dirty: !old_hud.valid || old_hud.score != new_hud.score,
        lives_dirty: !old_hud.valid || old_hud.lives != new_hud.lives,
        bombs_dirty: !old_hud.valid || old_hud.bombs != new_hud.bombs,
        powerups_dirty: !old_hud.valid || old_hud.freeze != new_hud.freeze || old_hud.homing
            != new_hud.homing || old_hud.laser != new_hud.laser || old_hud.shield
            != new_hud.shield,
        beam,
        blink: blink_at(g.core.frame),
    }
}

/// An obstacle pool with every slot free.
pub open spec fn no_obstacles() -> Seq<Obstacle> {
    Seq::new(MAX_OBS as nat, |i: int| Obstacle { x: 0, y: 0, active: false })
}

/// A missile pool with every slot free.
pub open spec fn no_missiles() -> Seq<Missile> {
    Seq::new(MAX_MISSILES as nat, |i: int| Missile { x: 0, y: 0, active: false, homing: false })
}

/// A particle pool with every slot free.
pub open spec fn no_particles() -> Seq<Particle> {
    Seq::new(MAX_PARTICLES as nat, |i: int| Particle { x: 0, y: 0, dx: 0, dy: 0, life: 0 })
}

/// A gift pool with every slot free.
pub open spec fn no_gifts() -> Seq<Gift> {
    Seq::new(MAX_GIFTS as nat, |i: int| Gift { x: 0, y: 0, life: 0, active: false })
}

/// The session at the start of a game: the ship fresh, the score at zero,
/// all pools empty, all timers off, and nothing shown in the status bar yet.
/// The best score, the generator and the tick count go on.
pub open spec fn new_game(g: GameView, demo: bool) -> GameView {
    GameView {
        core: Core {
            state: GameState::Playing,
            entering: true,
            demo_mode: demo,
            player: Player::fresh(),
            score: ScoreState { score: 0, speed_base_score: 0, ..g.core.score },
            timers: PowerupTimers { freeze: 0, homing: 0, laser: 0, shield: 0 },
            spawn_timer: 0,
            gift_timer: 0,
            game_over_ticks: 0,
            hud: Hud { valid: false, ..g.core.hud },
            ..g.core
        },
        obstacles: no_obstacles(),
        missiles: no_missiles(),
        particles: no_particles(),
        gifts: no_gifts(),
    }
}

/// The session at power-on: on the title screen, which is still to be
/// drawn, with nothing in play and the generator seeded from the boot seed.
pub open spec fn power_on() -> GameView {
    GameView {
        core: Core {
            state: GameState::Title,
            entering: true,
            demo_mode: false,
            frame: 0,
            rng: Rng { state: seeded(BOOT_SEED) },
            rng_seeded: false,
            prev: Buttons { a: false, b: false, x: false, y: false },
            player: Player::fresh(),
            score: ScoreState { score: 0, speed_base_score: 0, high_score: 0 },
            timers: PowerupTimers { freeze: 0, homing: 0, laser: 0, shield: 0 },
            spawn_timer: 0,
            gift_timer: 0,
            game_over_ticks: 0,
            hud: Hud {
                valid: false,
                score: 0,
                lives: 0,
                bombs: 0,
                freeze: false,
                homing: false,
                laser: false,
                shield: false,
            },
        },
        obstacles: no_obstacles(),
        missiles: no_missiles(),
        particles: no_particles(),
        gifts: no_gifts(),
    }
}

/// The session after the entry of its screen has been served.
pub open spec fn entry_served(g: GameView) -> GameView {
    GameView { core: Core { entering: false, ..g.core }, ..g }
}

/// A tick on the title screen. Both fire buttons held together start the
/// autoplay; otherwise any button that goes down starts a game.
pub open spec fn titled(g: GameView, down: Buttons, just: Buttons) -> (GameView, Frame) {
    let g0 = entry_served(g);
    (
        if down.chord() {
            new_game(g0, true)
        } else if just.any() {
            new_game(g0, false)
        } else {
            g0
        },
        still_frame(GameState::Title, g.core.entering),
    )
}

/// The controls of a tick of a game: from the autoplay in a demo, from the
/// buttons otherwise.
pub open spec fn controls_for(g: GameView, down: Buttons, just: Buttons) -> Controls {
    if g.core.demo_mode {
        demo_policy(g.obstacles, g.core.player.x as int, g.core.player.bombs as int, g.core.frame)
    } else {
        controls_of(down, just)
    }
}

/// The first part of a tick of a game: the ship moves, then a bomb goes off
/// if one is asked for and a charge is left, then the fire controls are
/// served.
pub open spec fn acted(g: GameView, c: Controls) -> (GameView, Option<Beam>) {
    let moved = GameView {
        core: Core {
            player: Player {
                x: steered(g.core.player.x as int, c.left, c.right) as i32,
                ..g.core.player
            },
            ..g.core
        },
        ..g
    };
    fired(
        if c.bomb && moved.core.player.bombs > 0 {
            bombed(moved)
        } else {
            moved
        },
        c,
    )
}

/// The second part of a tick of a game: at the speed and the spawn interval
/// that the progress gives, an obstacle may spawn, the obstacles fall and
/// those that fall below the screen score a point each, a gift may spawn,
/// and gifts, missiles and particles move.
pub open spec fn advanced(g: GameView) -> GameView {
    let progress = g.core.score.progress();
    let speed = speed_at(progress, g.core.timers.freeze > 0);
    let g1 = obstacle_spawned(g, progress);
    let g2 = GameView {
        core: Core {
            score: ScoreState {
                score: awarded(
                    g1.core.score.score,
                    count_set(passing(g1.obstacles, speed)) * SCORE_DODGE,
                ),
                ..g1.core.score
            },
            ..g1.core
        },
        obstacles: fall_all(g1.obstacles, speed),
        ..g1
    };
    let g3 = gift_spawned(g2);
    GameView {
        missiles: fly_all(g3.missiles, g3.obstacles, speed),
        particles: drift_all(g3.particles),
        gifts: gifts_fall_all(g3.gifts),
        ..g3
    }
}

/// The third part of a tick of a game: the three collision passes in their
/// order.
pub open spec fn collided(g: GameView) -> GameView {
    rammed(picked_from(shot_from(g, 0), 0))
}

/// The session after all four power-up timers have counted down.
pub open spec fn timers_ticked(g: GameView) -> GameView {
    GameView { core: Core { timers: ticked(g.core.timers), ..g.core }, ..g }
}

/// The session after the status bar has been brought up to date.
pub open spec fn hud_refreshed(g: GameView) -> GameView {
    GameView { core: Core { hud: shown(g), ..g.core }, ..g }
}

/// A tick of a game. In a demo any button that goes down leaves the autoplay
/// for the title screen at once, and nothing else happens in the tick.
/// Otherwise the ship acts, the field advances, collisions are resolved, the
/// power-up timers count down and the status bar is brought up to date.
pub open spec fn played(g: GameView, down: Buttons, just: Buttons) -> (GameView, Frame) {
    let g0 = entry_served(g);
    if g.core.demo_mode && just.any() {
        (
            GameView {
                core: Core { state: GameState::Title, entering: true, ..g0.core },
                ..g0
            },
            skipped_frame(g.core.entering),
        )
    } else {
        let act = acted(g0, controls_for(g0, down, just));
        let g1 = timers_ticked(collided(advanced(act.0)));
        (hud_refreshed(g1), game_frame(g1, g.core.entering, act.1))
    }
}

/// A tick on the game-over screen. On entry the best score takes the score
/// if that is higher. A demo goes back to the title screen by itself after a
/// fixed number of ticks; a game waits for any button to go down.
pub open spec fn game_over(g: GameView, just: Buttons) -> (GameView, Frame) {
    let g0 = if g.core.entering {
        GameView {
            core: Core {
                entering: false,
                game_over_ticks: 0,
                score: ScoreState {
                    high_score: if g.core.score.score > g.core.score.high_score {
                        g.core.score.score
                    } else {
                        g.core.score.high_score
                    },
                    ..g.core.score
                },
                ..g.core
            },
            ..g
        }
    } else {
        g
    };
    let waited = if g0.core.game_over_ticks + 1 < DEMO_GAMEOVER_TICKS {
        (g0.core.game_over_ticks + 1) as u32
    } else {
        DEMO_GAMEOVER_TICKS
    };
    let leave = if g0.core.demo_mode {
        waited >= DEMO_GAMEOVER_TICKS
    } else {
        just.any()
    };
    (
        GameView {
            core: Core {
                game_over_ticks: if g0.core.demo_mode {
                    waited
                } else {
                    g0.core.game_over_ticks
                },
                state: if leave {
                    GameState::Title
                } else {
                    g0.core.state
                },
                entering: leave,
                ..g0.core
            },
            ..g0
        },
        still_frame(GameState::GameOver, g.core.entering),
    )
}

/// The low 32 bits of the clock, which seed the generator.
pub open spec fn clock_seed(clock: u64) -> u32 {
    (clock % 0x1_0000_0000) as u32
}

/// The session after the buttons of a tick have been taken in: they become
/// the levels of the tick before, and the first tick in which any button is
/// down reseeds the generator from the clock.
pub open spec fn sampled(g: GameView, down: Buttons, clock: u64) -> GameView {
    GameView {
        core: Core {
            prev: down,
            rng: if !g.core.rng_seeded && down.any() {
                Rng { state: seeded(clock_seed(clock)) }
            } else {
                g.core.rng
            },
            rng_seeded: g.core.rng_seeded || down.any(),
            ..g.core
        },
        ..g
    }
}

/// The tick count after one more tick. It wraps.
pub open spec fn next_frame(frame: u32) -> u32 {
    if frame == u32::MAX {
        0
    } else {
        (frame + 1) as u32
    }
}

/// One tick of a session: the buttons are taken in, the screen that the
/// session is on is updated, and the tick is counted.
pub open spec fn stepped(g: GameView, down: Buttons, clock: u64) -> (GameView, Frame) {
    let just = pressed(down, g.core.prev);
    let g0 = sampled(g, down, clock);
    let r = match g.core.state {
        GameState::Title => titled(g0, down, just),
        GameState::Playing => played(g0, down, just),
        GameState::GameOver => game_over(g0, just),
    };
    (GameView { core: Core { frame: next_frame(r.0.core.frame), ..r.0.core }, ..r.0 }, r.1)
}

impl Frame {
    /// The frame of a tick outside a game.
    pub fn still(state: GameState, entered: bool) -> (f: Frame)
        ensures
            f == still_frame(state, entered),
    {
        Frame {
            state,
            entered,
            indicator: false,
            skipped: false,
            field: false,
            score_dirty: false,
            lives_dirty: false,
            bombs_dirty: false,
            powerups_dirty: false,
            beam: None,
            blink: false,
        }
    }

    /// The frame of the tick in which the autoplay is left.
    pub fn skip(entered: bool) -> (f: Frame)
        ensures
            f == skipped_frame(entered),
    {
        Frame {
            state: GameState::Playing,
            entered,
            indicator: true,
            skipped: true,
            field: false,
            score_dirty: false,
            lives_dirty: false,
            bombs_dirty: false,
            powerups_dirty: false,
            beam: None,
            blink: false,
        }
    }
}

impl Game {
    /// The session at power-on.
    pub fn new() -> (g: Game)
        ensures
            g@ == power_on(),
            g.wf(),
    {
        let g = Game {
            core: Core {
                state: GameState::Title,
                entering: true,
                demo_mode: false,
                frame: 0,
                rng: Rng::new(BOOT_SEED),
                rng_seeded: false,
                prev: Buttons::released(),
                player: Player::new(),
                score: ScoreState::new(),
                timers: PowerupTimers::new(),
                spawn_timer: 0,
                gift_timer: 0,
                game_over_ticks: 0,
                hud: Hud {
                    valid: false,
                    score: 0,
                    lives: 0,
                    bombs: 0,
                    freeze: false,
                    homing: false,
                    laser: false,
                    shield: false,
                },
            },
            obstacles: [Obstacle { x: 0, y: 0, active: false };MAX_OBS],
            missiles: [Missile { x: 0, y: 0, active: false, homing: false };MAX_MISSILES],
            particles: [Particle { x: 0, y: 0, dx: 0, dy: 0, life: 0 };MAX_PARTICLES],
            gifts: [Gift { x: 0, y: 0, life: 0, active: false };MAX_GIFTS],
        };
        proof {
            assert(g@.obstacles =~= no_obstacles());
            assert(g@.missiles =~= no_missiles());
            assert(g@.particles =~= no_particles());
            assert(g@.gifts =~= no_gifts());
        }
        g
    }
}

/// The low 32 bits of the clock.
pub fn seed_from_clock(clock: u64) -> (seed: u32)
    ensures
        seed == clock_seed(clock),
{
    let low: u64 = clock & 0xffff_ffff;
    assert(low == clock % 0x1_0000_0000) by (bit_vector)
        requires
            low == clock & 0xffff_ffff,
    ;
    low as u32
}

impl Game {
    /// Starts a game, played by the autoplay if `demo` is set.
    pub fn start_game(&mut self, demo: bool)
        requires
            old(self).wf(),
        ensures
            final(self)@ == new_game(old(self)@, demo),
            final(self).wf(),
    {
        self.core.state = GameState::Playing;
        self.core.entering = true;
        self.core.demo_mode = demo;
        self.core.player = Player::new();
        self.core.score.restart();
        self.core.timers = PowerupTimers::new();
        self.core.spawn_timer = 0;
        self.core.gift_timer = 0;
        self.core.game_over_ticks = 0;
        self.core.hud.valid = false;
        self.obstacles = [Obstacle { x: 0, y: 0, active: false };MAX_OBS];
        self.missiles = [Missile { x: 0, y: 0, active: false, homing: false };MAX_MISSILES];
        self.particles = [Particle { x: 0, y: 0, dx: 0, dy: 0, life: 0 };MAX_PARTICLES];
        self.gifts = [Gift { x: 0, y: 0, life: 0, active: false };MAX_GIFTS];
        proof {
            assert(self@.obstacles =~= no_obstacles());
            assert(self@.missiles =~= no_missiles());
            assert(self@.particles =~= no_particles());
            assert(self@.gifts =~= no_gifts());
        }
    }

    /// Takes in the buttons of a tick and returns their edges.
    pub fn sample(&mut self, down: &Buttons, clock: u64) -> (just: Buttons)
        requires
            old(self).wf(),
        ensures
            just == pressed(*down, old(self).core.prev),
            final(self)@ == sampled(old(self)@, *down, clock),
            final(self).wf(),
    {
        let just = down.edges(&self.core.prev);
        self.core.prev = *down;
        if !self.core.rng_seeded && down.is_any() {
            self.core.rng = Rng::new(seed_from_clock(clock));
            self.core.rng_seeded = true;
        }
        just
    }

    /// Serves the entry of the screen that the session is on, and tells
    /// whether there was one to serve.
    pub fn serve_entry(&mut self) -> (entered: bool)
        ensures
            entered == old(self).core.entering,
            final(self)@ == entry_served(old(self)@),
            old(self).wf() ==> final(self).wf(),
    {
        let entered = self.core.entering;
        self.core.entering = false;
        entered
    }

    /// A tick on the title screen.
    pub fn update_title(&mut self, down: &Buttons, just: &Buttons) -> (frame: Frame)
        requires
            old(self).wf(),
        ensures
            final(self)@ == titled(old(self)@, *down, *just).0,
            frame == titled(old(self)@, *down, *just).1,
            final(self).wf(),
            final(self).core.score.high_score == old(self).core.score.high_score,
    {
        let entered = self.serve_entry();
        if down.is_chord() {
            self.start_game(true);
        } else if just.is_any() {
            self.start_game(false);
        }
        Frame::still(GameState::Title, entered)
    }

    /// The controls of a tick of a game.
    pub fn controls(&self, down: &Buttons, just: &Buttons) -> (c: Controls)
        ensures
            c == controls_for(self@, *down, *just),
    {
        if self.core.demo_mode {
            demo_controls(
                &self.obstacles,
                self.core.player.x,
                self.core.player.bombs,
                self.core.frame,
            )
        } else {
            human_controls(down, just)
        }
    }

    /// The first part of a tick of a game: move, bomb, fire.
    pub fn act(&mut self, c: &Controls) -> (beam: Option<Beam>)
        requires
            old(self).wf(),
        ensures
            final(self)@ == acted(old(self)@, *c).0,
            beam == acted(old(self)@, *c).1,
            final(self).wf(),
            final(self).core.score.score >= old(self).core.score.score,
            final(self).core.same_screen(old(self).core),
    {
        self.core.player.steer(c.left, c.right);
        if c.bomb && self.core.player.bombs > 0 {
            self.detonate_bomb();
        }
        self.fire(c)
    }

    /// The second part of a tick of a game: spawn and move.
    pub fn advance(&mut self)
        requires
            old(self).wf(),
        ensures
            final(self)@ == advanced(old(self)@),
            final(self).wf(),
            final(self).core.score.score >= old(self).core.score.score,
            final(self).core.same_screen(old(self).core),
    {
        let progress: u32 = self.core.score.current_progress();
        let speed: i32 = fall_speed(progress, self.core.timers.freeze > 0);
        self.spawn_obstacle(progress);
        let passed: u32 = move_obstacles(&mut self.obstacles, speed);
        self.core.score.award(passed * SCORE_DODGE);
        self.spawn_gift();
        move_gifts(&mut self.gifts);
        move_missiles(&mut self.missiles, &self.obstacles, speed);
        update_particles(&mut self.particles);
    }

    /// The third part of a tick of a game: the collision passes.
    pub fn collide(&mut self)
        requires
            old(self).wf(),
        ensures
            final(self)@ == collided(old(self)@),
            final(self).wf(),
            final(self).core.score.score >= old(self).core.score.score,
            final(self).core.score.high_score == old(self).core.score.high_score,
    {
        self.collide_missiles_obstacles();
        self.collide_missiles_gifts();
        self.collide_player();
    }

    /// Brings the status bar up to date and returns the frame of a tick of a
    /// game.
    pub fn refresh_hud(&mut self, entered: bool, beam: Option<Beam>) -> (frame: Frame)
        ensures
            final(self)@ == hud_refreshed(old(self)@),
            frame == game_frame(old(self)@, entered, beam),
            old(self).wf() ==> final(self).wf(),
    {
        let before = self.core.hud;
        let now = Hud {
            valid: true,
            score: self.core.score.score,
            lives: self.core.player.lives,
            bombs: self.core.player.bombs,
            freeze: self.core.timers.freeze > 0,
            homing: self.core.timers.homing > 0,
            laser: self.core.timers.laser > 0,
            shield: self.core.timers.shield > 0,
        };
        self.core.hud = now;
        Frame {
            state: GameState::Playing,
            entered,
            indicator: true,
            skipped: false,
            field: true,
            score_dirty: !before.valid || before.score != now.score,
            lives_dirty: !before.valid || before.lives != now.lives,
            bombs_dirty: !before.valid || before.bombs != now.bombs,
            powerups_dirty: !before.valid || before.freeze != now.freeze || before.homing
                != now.homing || before.laser != now.laser || before.shield != now.shield,
            beam,
            blink: self.core.frame % BLINK_PERIOD < BLINK_PERIOD / 2,
        }
    }

    /// A tick of a game.
    pub fn update_playing(&mut self, down: &Buttons, just: &Buttons) -> (frame: Frame)
        requires
            old(self).wf(),
        ensures
            final(self)@ == played(old(self)@, *down, *just).0,
            frame == played(old(self)@, *down, *just).1,
            final(self).wf(),
            final(self).core.score.score >= old(self).core.score.score,
            final(self).core.score.high_score == old(self).core.score.high_score,
    {
        let entered = self.serve_entry();
        if self.core.demo_mode && just.is_any() {
            self.core.state = GameState::Title;
            self.core.entering = true;
            return Frame::skip(entered);
        }
        let c = self.controls(down, just);
        let beam = self.act(&c);
        self.advance();
        self.collide();
        self.core.timers.tick();
        self.refresh_hud(entered, beam)
    }

    /// A tick on the game-over screen.
    pub fn update_game_over(&mut self, just: &Buttons) -> (frame: Frame)
        requires
            old(self).wf(),
        ensures
            final(self)@ == game_over(old(self)@, *just).0,
            frame == game_over(old(self)@, *just).1,
            final(self).wf(),
            final(self).core.score.score == old(self).core.score.score,
            final(self).core.score.high_score >= old(self).core.score.high_score,
            old(self).core.entering ==> final(self).core.score.high_score
                >= final(self).core.score.score,
    {
        let entered = self.core.entering;
        if entered {
            self.core.entering = false;
            self.core.game_over_ticks = 0;
            self.core.score.capture_high_score();
        }
        let leave: bool = if self.core.demo_mode {
            if self.core.game_over_ticks + 1 < DEMO_GAMEOVER_TICKS {
                self.core.game_over_ticks = self.core.game_over_ticks + 1;
            } else {
                self.core.game_over_ticks = DEMO_GAMEOVER_TICKS;
            }
            self.core.game_over_ticks >= DEMO_GAMEOVER_TICKS
        } else {
            just.is_any()
        };
        if leave {
            self.core.state = GameState::Title;
        }
        self.core.entering = leave;
        Frame::still(GameState::GameOver, entered)
    }

    /// One tick of the session. `down` holds the button levels sampled in
    /// this tick, `clock` the reading of a free-running clock, which seeds
    /// the generator at the first button press.
    ///
    /// The session keeps its invariant, so lives and bombs stay within their
    /// limits and no pool holds more than its capacity; and while a game is
    /// running its score never goes down.
    pub fn tick(&mut self, down: Buttons, clock: u64) -> (frame: Frame)
        requires
            old(self).wf(),
        ensures
            final(self)@ == stepped(old(self)@, down, clock).0,
            frame == stepped(old(self)@, down, clock).1,
            final(self).wf(),
            frame.state == old(self).core.state,
            old(self).core.state is Playing ==> final(self).core.score.score
                >= old(self).core.score.score,
            final(self).core.score.high_score >= old(self).core.score.high_score,
            final(self).core.player.lives <= MAX_LIVES,
            final(self).core.player.bombs <= MAX_BOMBS,
            final(self)@.obstacle_count() <= MAX_OBS,
            final(self)@.missile_count() <= MAX_MISSILES,
            final(self)@.particle_count() <= MAX_PARTICLES,
            final(self)@.gift_count() <= MAX_GIFTS,
    {
        let just = self.sample(&down, clock);
        let frame = match self.core.state {
            GameState::Title => self.update_title(&down, &just),
            GameState::Playing => self.update_playing(&down, &just),
            GameState::GameOver => self.update_game_over(&just),
        };
        self.core.frame = self.core.frame.wrapping_add(1);
        proof {
            lemma_bounds(self@);
        }
        frame
    }
}

} // verus!
