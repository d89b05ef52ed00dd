//! What holds of every session: the invariant that every tick keeps, the
//! moves that the state machine can make, and what follows for whole runs of
//! ticks, whatever the buttons and the clock do.

use vstd::prelude::*;
use crate::collision::{
    lemma_picked_from, lemma_rammed, lemma_shot_from, picked_from, shot_from,
};
use crate::difficulty::speed_at;
use crate::entities::{
    MAX_BOMBS, MAX_GIFTS, MAX_LIVES, MAX_MISSILES, MAX_OBS, MAX_PARTICLES,
};
use crate::game::{lemma_bounds, Core, GameState, GameView, BOOT_SEED};
use crate::input::{pressed, Buttons, Controls};
use crate::motion::{fall_all, lemma_fall_wf, lemma_fly_wf, lemma_gifts_fall_wf, passing};
use crate::particles::lemma_drift_wf;
use crate::player::{awarded, steered, Player, ScoreState, SCORE_DODGE};
use crate::pools::count_set;
use crate::rng::lemma_step_keeps_nonzero;
use crate::session::{
    acted, advanced, collided, controls_for, entry_served, game_over, new_game, played, power_on,
    sampled, stepped, titled,
};
use crate::spawn::{gift_spawned, lemma_gift_spawned, lemma_obstacle_spawned, obstacle_spawned};
use crate::weapons::{bombed, lemma_bombed, lemma_fired};

verus! {

/// The session at power-on meets the invariant.
pub proof fn lemma_power_on()
    ensures
        power_on().wf(),
{
    lemma_step_keeps_nonzero(BOOT_SEED);
}

/// A new game meets the invariant, whatever came before it.
pub proof fn lemma_new_game(g: GameView, demo: bool)
    requires
        g.core.rng.wf(),
    ensures
        new_game(g, demo).wf(),
        new_game(g, demo).core.score.high_score == g.core.score.high_score,
{
}

/// The first part of a tick of a game keeps the invariant, does not lower the
/// score and costs no life.
pub proof fn lemma_acted(g: GameView, c: Controls)
    requires
        g.wf(),
    ensures
        acted(g, c).0.plays_on_from(g),
        acted(g, c).0.core.same_screen(g.core),
        acted(g, c).0.core.player.lives == g.core.player.lives,
{
    let moved = GameView {
        core: Core {
            player: Player {
                x: steered(g.core.player.x as int, c.left, c.right) as i32,
                ..g.core.player
            },
            ..g.core
        },
        ..g
    };
    if c.bomb && moved.core.player.bombs > 0 {
        lemma_bombed(moved);
        lemma_fired(bombed(moved), c);
    } else {
        lemma_fired(moved, c);
    }
}

/// The second part of a tick of a game keeps the invariant, does not lower
/// the score and leaves the ship as it is.
pub proof fn lemma_advanced(g: GameView)
    requires
        g.wf(),
    ensures
        advanced(g).plays_on_from(g),
        advanced(g).core.same_screen(g.core),
        advanced(g).core.player == g.core.player,
{
    let progress = g.core.score.progress();
    let speed = speed_at(progress, g.core.timers.freeze > 0);
    lemma_obstacle_spawned(g, progress);
    let g1 = obstacle_spawned(g, progress);
    lemma_fall_wf(g1.obstacles, speed);
    let g2 = GameView {
        core: Core {
            score: ScoreState {
                score: awarded(
                    g1.core.score.score,
                    count_set(passing(g1.obstacles, speed)) * SCORE_DODGE,
                ),
                ..g1.core.score
            },
            ..g1.core
        },
        obstacles: fall_all(g1.obstacles, speed),
        ..g1
    };
    lemma_gift_spawned(g2);
    let g3 = gift_spawned(g2);
    lemma_fly_wf(g3.missiles, g3.obstacles, speed);
    lemma_drift_wf(g3.particles);
    lemma_gifts_fall_wf(g3.gifts);
}

/// The collision passes keep the invariant, do not lower the score and cost
/// no more than one life. The game goes on exactly when a life is left.
pub proof fn lemma_collided(g: GameView)
    requires
        g.wf(),
    ensures
        collided(g).plays_on_from(g),
        collided(g).core.player.lives + 1 >= g.core.player.lives,
        g.core.state is Playing ==> (collided(g).core.state is Playing <==> collided(
            g,
        ).core.player.lives > 0),
        g.core.state is Playing && !(collided(g).core.state is Playing) ==> collided(g).core.state
            is GameOver && collided(g).core.entering,
{
    lemma_shot_from(g, 0);
    lemma_picked_from(shot_from(g, 0), 0);
    lemma_rammed(picked_from(shot_from(g, 0), 0));
}

/// A tick of a game keeps the invariant and does not lower the score. From a
/// running game it leads to the game-over screen exactly when the last life
/// is lost, and to the title screen exactly when a button goes down in a
/// demo.
pub proof fn lemma_played(g: GameView, down: Buttons, just: Buttons)
    requires
        g.wf(),
    ensures
        played(g, down, just).0.plays_on_from(g),
        g.core.state is Playing ==> match played(g, down, just).0.core.state {
            GameState::Playing => played(g, down, just).0.core.player.lives > 0,
            GameState::GameOver => played(g, down, just).0.core.player.lives == 0 && played(
                g,
                down,
                just,
            ).0.core.entering,
            GameState::Title => g.core.demo_mode && just.any() && played(
                g,
                down,
                just,
            ).0.core.entering,
        },
        played(g, down, just).1.skipped <==> g.core.demo_mode && just.any(),
        played(g, down, just).1.skipped ==> played(g, down, just).0 == (GameView {
            core: Core { state: GameState::Title, entering: true, ..g.core },
            ..g
        }),
{
    let g0 = entry_served(g);
    if !(g.core.demo_mode && just.any()) {
        let c = controls_for(g0, down, just);
        lemma_acted(g0, c);
        lemma_advanced(acted(g0, c).0);
        lemma_collided(advanced(acted(g0, c).0));
    }
}

/// A tick on the title screen keeps the invariant and the best score. It
/// stays on the title screen or starts a game: a demo exactly when both fire
/// buttons are held.
pub proof fn lemma_titled(g: GameView, down: Buttons, just: Buttons)
    requires
        g.wf(),
    ensures
        titled(g, down, just).0.wf(),
        titled(g, down, just).0.core.score.high_score == g.core.score.high_score,
        g.core.state is Title ==> match titled(g, down, just).0.core.state {
            GameState::Title => !down.chord() && !just.any(),
            GameState::Playing => (down.chord() || just.any()) && titled(
                g,
                down,
                just,
            ).0.core.demo_mode == down.chord(),
            GameState::GameOver => false,
        },
{
    lemma_new_game(entry_served(g), true);
    lemma_new_game(entry_served(g), false);
}

/// A tick on the game-over screen keeps the invariant and the score, and
/// never lowers the best score; on entry the best score is at least the
/// score. It stays on the game-over screen or goes to the title screen.
pub proof fn lemma_game_over(g: GameView, just: Buttons)
    requires
        g.wf(),
    ensures
        game_over(g, just).0.wf(),
        game_over(g, just).0.core.score.score == g.core.score.score,
        game_over(g, just).0.core.score.high_score >= g.core.score.high_score,
        g.core.entering ==> game_over(g, just).0.core.score.high_score == if g.core.score.score
            > g.core.score.high_score {
            g.core.score.score
        } else {
            g.core.score.high_score
        },
        g.core.state is GameOver ==> !(game_over(g, just).0.core.state is Playing),
        g.core.state is GameOver && !g.core.demo_mode ==> (game_over(g, just).0.core.state
            is Title <==> just.any()),
{
}

/// A tick keeps the invariant of the session. While a game is running its
/// score never goes down, and the best score never goes down at all.
pub proof fn lemma_stepped(g: GameView, down: Buttons, clock: u64)
    requires
        g.wf(),
    ensures
        stepped(g, down, clock).0.wf(),
        g.core.state is Playing ==> stepped(g, down, clock).0.core.score.score
            >= g.core.score.score,
        stepped(g, down, clock).0.core.score.high_score >= g.core.score.high_score,
        stepped(g, down, clock).1.state == g.core.state,
{
    let just = pressed(down, g.core.prev);
    let g0 = sampled(g, down, clock);
    match g.core.state {
        GameState::Title => {
            lemma_titled(g0, down, just);
        },
        GameState::Playing => {
            lemma_played(g0, down, just);
        },
        GameState::GameOver => {
            lemma_game_over(g0, just);
        },
    }
}

/// Every tick keeps the invariant of the session, so lives and bombs stay
/// within their limits and no pool holds more than its capacity. While a game
/// is running its score never goes down, and the best score never goes down
/// at all.
pub proof fn lemma_step_keeps_invariant(g: GameView, down: Buttons, clock: u64)
    requires
        g.wf(),
    ensures
        stepped(g, down, clock).0.wf(),
        g.core.state is Playing ==> stepped(g, down, clock).0.core.score.score
            >= g.core.score.score,
        stepped(g, down, clock).0.core.score.high_score >= g.core.score.high_score,
        stepped(g, down, clock).0.core.player.lives <= MAX_LIVES,
        stepped(g, down, clock).0.core.player.bombs <= MAX_BOMBS,
        stepped(g, down, clock).0.obstacle_count() <= MAX_OBS,
        stepped(g, down, clock).0.missile_count() <= MAX_MISSILES,
        stepped(g, down, clock).0.particle_count() <= MAX_PARTICLES,
        stepped(g, down, clock).0.gift_count() <= MAX_GIFTS,
        stepped(g, down, clock).1.state == g.core.state,
{
    lemma_stepped(g, down, clock);
    lemma_bounds(stepped(g, down, clock).0);
}

/// The moves of the state machine. From the title screen a tick leads only
/// to a game; from a game only to the game-over screen, when the last life
/// is lost, or, in a demo, to the title screen, when a button goes down;
/// from the game-over screen only to the title screen. A game is a demo
/// exactly when it was started with both fire buttons held.
pub proof fn lemma_transitions(g: GameView, down: Buttons, clock: u64)
    requires
        g.wf(),
    ensures
        match (g.core.state, stepped(g, down, clock).0.core.state) {
            (GameState::Title, GameState::Title) => !down.chord() && !pressed(
                down,
                g.core.prev,
            ).any(),
            (GameState::Title, GameState::Playing) => stepped(g, down, clock).0.core.demo_mode
                == down.chord() && stepped(g, down, clock).0.core.entering,
            (GameState::Title, GameState::GameOver) => false,
            (GameState::Playing, GameState::Playing) => stepped(g, down, clock).0.core.player.lives
                > 0,
            (GameState::Playing, GameState::GameOver) => stepped(
                g,
                down,
                clock,
            ).0.core.player.lives == 0 && stepped(g, down, clock).0.core.entering,
            (GameState::Playing, GameState::Title) => g.core.demo_mode && pressed(
                down,
                g.core.prev,
            ).any() && stepped(g, down, clock).1.skipped,
            (GameState::GameOver, GameState::GameOver) => true,
            (GameState::GameOver, GameState::Title) => stepped(g, down, clock).0.core.entering,
            (GameState::GameOver, GameState::Playing) => false,
        },
{
    let just = pressed(down, g.core.prev);
    let g0 = sampled(g, down, clock);
    lemma_titled(g0, down, just);
    lemma_played(g0, down, just);
    lemma_game_over(g0, just);
}

/// The session after a run of ticks, one for each pair of button levels and
/// clock reading.
pub open spec fn run(g: GameView, inputs: Seq<(Buttons, u64)>) -> GameView
    decreases inputs.len(),
{
    if inputs.len() == 0 {
        g
    } else {
        stepped(run(g, inputs.drop_last()), inputs.last().0, inputs.last().1).0
    }
}

/// Whatever the buttons and the clock do, a session that starts within its
/// invariant stays within it; the session at power-on does so. So at every
/// tick lives and bombs are within their limits and no pool holds more than
/// its capacity.
pub proof fn lemma_run_keeps_invariant(g: GameView, inputs: Seq<(Buttons, u64)>)
    requires
        g.wf(),
    ensures
        power_on().wf(),
        run(g, inputs).wf(),
        run(g, inputs).core.player.lives <= MAX_LIVES,
        run(g, inputs).core.player.bombs <= MAX_BOMBS,
        run(g, inputs).obstacle_count() <= MAX_OBS,
        run(g, inputs).missile_count() <= MAX_MISSILES,
        run(g, inputs).particle_count() <= MAX_PARTICLES,
        run(g, inputs).gift_count() <= MAX_GIFTS,
        run(g, inputs).core.score.high_score >= g.core.score.high_score,
    decreases inputs.len(),
{
    lemma_power_on();
    if inputs.len() > 0 {
        lemma_run_keeps_invariant(g, inputs.drop_last());
        lemma_step_keeps_invariant(run(g, inputs.drop_last()), inputs.last().0, inputs.last().1);
    }
    lemma_bounds(run(g, inputs));
}

/// Within one game the score never goes down: over a run of ticks that all
/// start in a running game, the score at the end is at least the score at
/// the start.
pub proof fn lemma_score_monotone(g: GameView, inputs: Seq<(Buttons, u64)>)
    requires
        g.wf(),
        forall|k: int| 0 <= k < inputs.len() ==> (#[trigger] run(g, inputs.take(k))).core.state
            is Playing,
    ensures
        run(g, inputs).core.score.score >= g.core.score.score,
    decreases inputs.len(),
{
    if inputs.len() > 0 {
        let head = inputs.drop_last();
        assert forall|k: int| 0 <= k < head.len() implies (#[trigger] run(
            g,
            head.take(k),
        )).core.state is Playing by {
            assert(head.take(k) =~= inputs.take(k));
        }
        lemma_score_monotone(g, head);
        lemma_run_keeps_invariant(g, head);
        assert(inputs.take(inputs.len() - 1) =~= head);
        lemma_step_keeps_invariant(run(g, head), inputs.last().0, inputs.last().1);
    }
}

} // verus!
