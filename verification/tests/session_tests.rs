use dodge_shoot::entities::{
    Gift, Missile, Obstacle, Particle, MAX_BOMBS, MAX_GIFTS, MAX_LIVES, MAX_MISSILES, MAX_OBS,
    MAX_PARTICLES,
};
use dodge_shoot::game::{Game, GameState};
use dodge_shoot::input::Buttons;
use dodge_shoot::player::{Player, ScoreState};
use dodge_shoot::powerups::PowerupTimers;
use dodge_shoot::rng::Rng;
use dodge_shoot::session::{seed_from_clock, Frame};
use dodge_shoot::weapons::Beam;

const NONE: Buttons = Buttons { a: false, b: false, x: false, y: false };
const A: Buttons = Buttons { a: true, b: false, x: false, y: false };
const B: Buttons = Buttons { a: false, b: true, x: false, y: false };
const X: Buttons = Buttons { a: false, b: false, x: true, y: false };
const Y: Buttons = Buttons { a: false, b: false, x: false, y: true };
const CHORD: Buttons = Buttons { a: true, b: false, x: true, y: false };

fn playing() -> Game {
    let mut g = Game::new();
    g.start_game(false);
    g
}

fn still(state: GameState, entered: bool) -> Frame {
    Frame {
        state,
        entered,
        indicator: false,
        skipped: false,
        field: false,
        score_dirty: false,
        lives_dirty: false,
        bombs_dirty: false,
        powerups_dirty: false,
        beam: None,
        blink: false,
    }
}

fn game_frame(entered: bool, score: bool, lives: bool, bombs: bool, powerups: bool) -> Frame {
    Frame {
        state: GameState::Playing,
        entered,
        indicator: true,
        skipped: false,
        field: true,
        score_dirty: score,
        lives_dirty: lives,
        bombs_dirty: bombs,
        powerups_dirty: powerups,
        beam: None,
        blink: true,
    }
}

fn blinking(frame: Frame, blink: bool) -> Frame {
    Frame { blink, ..frame }
}

#[test]
fn power_on_state() {
    let g = Game::new();
    assert_eq!(g.core.state, GameState::Title);
    assert!(g.core.entering);
    assert!(!g.core.demo_mode);
    assert!(!g.core.rng_seeded);
    assert_eq!(g.core.frame, 0);
    assert_eq!(g.core.rng, Rng::new(12345));
    assert_eq!(g.core.prev, NONE);
    assert_eq!(g.core.player, Player { x: 108, lives: 3, bombs: 3, invincible: 0 });
    assert_eq!(g.core.score, ScoreState { score: 0, speed_base_score: 0, high_score: 0 });
    assert_eq!(g.core.timers, PowerupTimers::new());
    assert!(!g.core.hud.valid);
    assert_eq!(g.obstacles, [Obstacle::new(); MAX_OBS]);
    assert_eq!(g.missiles, [Missile::new(); MAX_MISSILES]);
    assert_eq!(g.particles, [Particle::new(); MAX_PARTICLES]);
    assert_eq!(g.gifts, [Gift::new(); MAX_GIFTS]);
    assert!(g.is_valid());
}

#[test]
fn title_is_entered_once_and_waits() {
    let mut g = Game::new();
    assert_eq!(g.tick(NONE, 100), still(GameState::Title, true));
    assert_eq!(g.tick(NONE, 200), still(GameState::Title, false));
    assert_eq!(g.tick(NONE, 300), still(GameState::Title, false));
    assert_eq!(g.core.state, GameState::Title);
    assert_eq!(g.core.frame, 3);
    assert_eq!(g.core.rng, Rng::new(12345));
    assert!(!g.core.rng_seeded);
}

#[test]
fn any_single_button_starts_a_game() {
    for down in [A, B, X, Y] {
        let mut g = Game::new();
        g.core.score.high_score = 77;
        assert_eq!(g.tick(down, 5), still(GameState::Title, true));
        assert_eq!(g.core.state, GameState::Playing);
        assert!(!g.core.demo_mode);
        assert!(g.core.entering);
        assert_eq!(g.core.player, Player { x: 108, lives: 3, bombs: 3, invincible: 0 });
        assert_eq!(g.core.score, ScoreState { score: 0, speed_base_score: 0, high_score: 77 });
        assert!(g.is_valid());
    }
}

#[test]
fn held_button_without_an_edge_starts_nothing() {
    let mut g = Game::new();
    g.core.prev = B;
    g.tick(B, 5);
    assert_eq!(g.core.state, GameState::Title);
    g.tick(NONE, 5);
    g.tick(B, 5);
    assert_eq!(g.core.state, GameState::Playing);
}

#[test]
fn chord_on_title_starts_the_demo() {
    let mut g = Game::new();
    assert_eq!(g.tick(CHORD, 5), still(GameState::Title, true));
    assert_eq!(g.core.state, GameState::Playing);
    assert!(g.core.demo_mode);
    // the chord is read from levels: it starts the demo even without an edge
    let mut h = Game::new();
    h.core.prev = CHORD;
    h.tick(CHORD, 5);
    assert_eq!(h.core.state, GameState::Playing);
    assert!(h.core.demo_mode);
}

#[test]
fn button_edge_leaves_the_demo_without_running_the_tick() {
    let mut g = Game::new();
    g.tick(CHORD, 5);
    // the chord is still held: no edge, the demo runs
    let f = g.tick(CHORD, 6);
    assert_eq!(blinking(f, true), game_frame(true, true, true, true, true));
    assert_eq!(g.core.spawn_timer, 1);
    for _ in 0..60 {
        let f = g.tick(NONE, 7);
        assert!(!f.skipped);
        assert_eq!(g.core.state, GameState::Playing);
    }
    assert!(g.obstacles.iter().any(|o| o.active));
    let before = g;
    let f = g.tick(Y, 8);
    assert_eq!(
        f,
        Frame {
            state: GameState::Playing,
            entered: false,
            indicator: true,
            skipped: true,
            field: false,
            score_dirty: false,
            lives_dirty: false,
            bombs_dirty: false,
            powerups_dirty: false,
            beam: None,
            blink: false,
        }
    );
    assert_eq!(g.core.state, GameState::Title);
    assert!(g.core.entering);
    assert!(g.core.demo_mode);
    assert_eq!(g.core.frame, before.core.frame + 1);
    assert_eq!(g.core.prev, Y);
    assert_eq!(g.obstacles, before.obstacles);
    assert_eq!(g.missiles, before.missiles);
    assert_eq!(g.particles, before.particles);
    assert_eq!(g.gifts, before.gifts);
    assert_eq!(g.core.player, before.core.player);
    assert_eq!(g.core.score, before.core.score);
    assert_eq!(g.core.timers, before.core.timers);
    assert_eq!(g.core.spawn_timer, before.core.spawn_timer);
    assert_eq!(g.core.gift_timer, before.core.gift_timer);
    assert_eq!(g.core.hud, before.core.hud);
    // the title screen is drawn on the next tick, and the held button starts nothing
    assert_eq!(g.tick(Y, 9), still(GameState::Title, true));
    assert_eq!(g.core.state, GameState::Title);
}

#[test]
fn demo_left_on_its_first_tick_still_serves_the_entry() {
    let mut g = Game::new();
    g.start_game(true);
    let f = g.tick(B, 1);
    assert!(f.skipped);
    assert!(f.entered);
    assert_eq!(g.core.state, GameState::Title);
}

#[test]
fn button_edges_do_not_leave_a_real_game() {
    let mut g = playing();
    for down in [B, NONE, Y, NONE, A, NONE, X, CHORD, NONE] {
        let f = g.tick(down, 1);
        assert!(!f.skipped);
        assert_eq!(f.state, GameState::Playing);
        assert_eq!(g.core.state, GameState::Playing);
    }
}

#[test]
fn first_button_press_reseeds_from_the_clock() {
    let mut g = Game::new();
    g.tick(NONE, 777);
    assert_eq!(g.core.rng, Rng::new(12345));
    g.tick(B, 0x0000_0007_0000_0009);
    assert!(g.core.rng_seeded);
    assert_eq!(g.core.rng, Rng::new(9));
    // only the first press reseeds
    g.tick(NONE, 50);
    g.tick(Y, 60);
    assert!(g.core.rng_seeded);
    let mut expected = Game::new();
    expected.tick(NONE, 0);
    expected.tick(B, 9);
    expected.tick(NONE, 1);
    expected.tick(Y, 2);
    assert_eq!(g, expected);
}

#[test]
fn clock_with_zero_low_word_seeds_like_one() {
    let mut g = Game::new();
    g.tick(A, 0x0000_0003_0000_0000);
    assert_eq!(g.core.rng, Rng::new(1));
    assert_eq!(g.core.rng.state, 1);
    assert_eq!(seed_from_clock(0x0000_0003_0000_0000), 0);
    assert_eq!(seed_from_clock(u64::MAX), u32::MAX);
    assert_eq!(seed_from_clock(0x1234_5678_9abc_def0), 0x9abc_def0);
}

#[test]
fn held_button_in_any_state_reseeds() {
    let mut g = playing();
    g.core.prev = B;
    g.tick(B, 4242);
    assert!(g.core.rng_seeded);
    // the tick drew nothing from the generator
    assert_eq!(g.core.rng, Rng::new(4242));
}

#[test]
fn new_game_resets_the_field_but_not_the_session() {
    let mut g = playing();
    for i in 0..400 {
        g.tick(if i % 7 == 0 { X } else { NONE }, 99);
    }
    g.core.score.high_score = 31;
    let rng = g.core.rng;
    let frame = g.core.frame;
    g.start_game(true);
    assert_eq!(g.core.state, GameState::Playing);
    assert!(g.core.entering);
    assert!(g.core.demo_mode);
    assert_eq!(g.core.player, Player { x: 108, lives: 3, bombs: 3, invincible: 0 });
    assert_eq!(g.core.score, ScoreState { score: 0, speed_base_score: 0, high_score: 31 });
    assert_eq!(g.core.timers, PowerupTimers::new());
    assert_eq!(g.core.spawn_timer, 0);
    assert_eq!(g.core.gift_timer, 0);
    assert!(!g.core.hud.valid);
    assert_eq!(g.obstacles, [Obstacle::new(); MAX_OBS]);
    assert_eq!(g.missiles, [Missile::new(); MAX_MISSILES]);
    assert_eq!(g.particles, [Particle::new(); MAX_PARTICLES]);
    assert_eq!(g.gifts, [Gift::new(); MAX_GIFTS]);
    assert_eq!(g.core.rng, rng);
    assert_eq!(g.core.frame, frame);
}

#[test]
fn quiet_tick_of_a_game() {
    let mut g = playing();
    let f = g.tick(NONE, 1);
    assert_eq!(blinking(f, true), game_frame(true, true, true, true, true));
    assert_eq!(g.core.state, GameState::Playing);
    assert!(!g.core.entering);
    assert_eq!(g.core.spawn_timer, 1);
    assert_eq!(g.core.gift_timer, 1);
    assert_eq!(g.core.frame, 1);
    assert!(g.core.hud.valid);
    let f = g.tick(NONE, 1);
    assert_eq!(blinking(f, true), game_frame(false, false, false, false, false));
    assert_eq!(g.core.spawn_timer, 2);
}

#[test]
fn first_obstacle_arrives_on_the_thirtieth_tick() {
    let mut g = playing();
    for _ in 0..29 {
        g.tick(NONE, 1);
        assert!(g.obstacles.iter().all(|o| !o.active));
    }
    g.tick(NONE, 1);
    // spawned at the top and moved once in the same tick, at the base speed
    assert_eq!(g.obstacles[0], Obstacle { x: 182, y: 16, active: true });
    assert_eq!(g.core.spawn_timer, 0);
    g.tick(NONE, 1);
    assert_eq!(g.obstacles[0], Obstacle { x: 182, y: 18, active: true });
}

#[test]
fn dodged_obstacle_scores_one() {
    let mut g = playing();
    g.obstacles[0] = Obstacle { x: 10, y: 134, active: true };
    let f = g.tick(NONE, 1);
    assert_eq!(g.obstacles[0], Obstacle { x: 10, y: 136, active: false });
    assert_eq!(g.core.score.score, 1);
    assert!(f.score_dirty);
}

#[test]
fn obstacle_on_the_ship_in_a_tick() {
    let mut g = playing();
    g.tick(NONE, 1);
    g.obstacles[2] = Obstacle { x: 108, y: 120, active: true };
    let f = g.tick(NONE, 1);
    assert_eq!(blinking(f, true), game_frame(false, false, true, false, false));
    assert_eq!(g.obstacles[2], Obstacle { x: 108, y: 122, active: false });
    assert_eq!(g.core.player, Player { x: 108, lives: 2, bombs: 3, invincible: 20 });
    assert_eq!(g.core.state, GameState::Playing);
    assert_eq!(g.core.score.score, 0);
}

#[test]
fn missile_on_obstacle_in_a_tick() {
    let mut g = playing();
    g.tick(NONE, 1);
    // after the move the obstacle is at row 50 and the missile at row 50
    g.obstacles[1] = Obstacle { x: 98, y: 48, active: true };
    g.missiles[0] = Missile { x: 100, y: 54, active: true, homing: false };
    let f = g.tick(NONE, 1);
    assert_eq!(blinking(f, true), game_frame(false, true, false, false, false));
    assert_eq!(g.obstacles[1], Obstacle { x: 98, y: 50, active: false });
    assert_eq!(g.missiles[0], Missile { x: 100, y: 50, active: false, homing: false });
    assert_eq!(g.core.score.score, 2);
    assert_eq!(g.particles.iter().filter(|p| p.life > 0).count(), 6);
}

#[test]
fn last_life_lost_ends_the_game_on_the_same_tick() {
    let mut g = playing();
    g.tick(NONE, 1);
    g.core.player.lives = 1;
    g.core.score.score = 9;
    g.core.score.high_score = 4;
    g.obstacles[2] = Obstacle { x: 108, y: 120, active: true };
    let f = g.tick(NONE, 1);
    assert_eq!(f.state, GameState::Playing);
    assert!(f.lives_dirty);
    assert_eq!(g.core.state, GameState::GameOver);
    assert_eq!(g.core.player.lives, 0);
    assert!(g.core.entering);
    // the best score is taken when the game-over screen is entered
    assert_eq!(g.core.score.high_score, 4);
    assert_eq!(g.tick(NONE, 1), still(GameState::GameOver, true));
    assert_eq!(g.core.score, ScoreState { score: 9, speed_base_score: 0, high_score: 9 });
    assert_eq!(g.tick(NONE, 1), still(GameState::GameOver, false));
    assert_eq!(g.core.state, GameState::GameOver);
    assert!(g.is_valid());
}

#[test]
fn lower_score_leaves_the_best_score() {
    let mut g = playing();
    g.core.state = GameState::GameOver;
    g.core.entering = true;
    g.core.player.lives = 0;
    g.core.score = ScoreState { score: 9, speed_base_score: 0, high_score: 40 };
    g.tick(NONE, 1);
    assert_eq!(g.core.score, ScoreState { score: 9, speed_base_score: 0, high_score: 40 });
    g.core.score.score = 40;
    g.core.entering = true;
    g.tick(NONE, 1);
    assert_eq!(g.core.score.high_score, 40);
}

#[test]
fn button_leaves_the_game_over_screen() {
    for down in [A, B, X, Y, CHORD] {
        let mut g = playing();
        g.core.state = GameState::GameOver;
        g.core.entering = true;
        g.core.score.score = 12;
        for _ in 0..100 {
            g.tick(NONE, 1);
            assert_eq!(g.core.state, GameState::GameOver);
        }
        assert_eq!(g.tick(down, 1), still(GameState::GameOver, false));
        assert_eq!(g.core.state, GameState::Title);
        assert!(g.core.entering);
        assert_eq!(g.core.score.high_score, 12);
    }
}

#[test]
fn button_that_ends_the_game_over_screen_on_entry() {
    let mut g = playing();
    g.core.state = GameState::GameOver;
    g.core.entering = true;
    g.core.score.score = 5;
    assert_eq!(g.tick(A, 1), still(GameState::GameOver, true));
    assert_eq!(g.core.state, GameState::Title);
    assert_eq!(g.core.score.high_score, 5);
    // the held button gives no new edge on the title screen
    assert_eq!(g.tick(A, 1), still(GameState::Title, true));
    assert_eq!(g.core.state, GameState::Title);
}

#[test]
fn demo_leaves_the_game_over_screen_by_itself() {
    let mut g = playing();
    g.core.demo_mode = true;
    g.core.state = GameState::GameOver;
    g.core.entering = true;
    g.core.game_over_ticks = 17;
    assert_eq!(g.tick(NONE, 1), still(GameState::GameOver, true));
    assert_eq!(g.core.game_over_ticks, 1);
    for t in 2..40 {
        // buttons are not looked at
        let down = if t % 2 == 0 { A } else { NONE };
        assert_eq!(g.tick(down, 1), still(GameState::GameOver, false));
        assert_eq!(g.core.state, GameState::GameOver);
        assert_eq!(g.core.game_over_ticks, t);
    }
    assert_eq!(g.tick(NONE, 1), still(GameState::GameOver, false));
    assert_eq!(g.core.state, GameState::Title);
    assert!(g.core.entering);
    assert!(g.core.demo_mode);
}

#[test]
fn status_bar_is_redrawn_only_where_it_changed() {
    let mut g = playing();
    assert_eq!(blinking(g.tick(NONE, 1), true), game_frame(true, true, true, true, true));
    assert_eq!(blinking(g.tick(NONE, 1), true), game_frame(false, false, false, false, false));
    g.core.score.score = 3;
    assert_eq!(blinking(g.tick(NONE, 1), true), game_frame(false, true, false, false, false));
    g.core.player.bombs = 2;
    assert_eq!(blinking(g.tick(NONE, 1), true), game_frame(false, false, false, true, false));
    g.core.player.lives = 2;
    assert_eq!(blinking(g.tick(NONE, 1), true), game_frame(false, false, true, false, false));
    g.core.timers.shield = 2;
    assert_eq!(blinking(g.tick(NONE, 1), true), game_frame(false, false, false, false, true));
    assert_eq!(g.core.timers.shield, 1);
    assert_eq!(blinking(g.tick(NONE, 1), true), game_frame(false, false, false, false, true));
    assert_eq!(g.core.timers.shield, 0);
    assert_eq!(blinking(g.tick(NONE, 1), true), game_frame(false, false, false, false, false));
    g.core.timers.laser = 100;
    g.core.timers.homing = 100;
    assert_eq!(blinking(g.tick(NONE, 1), true), game_frame(false, false, false, false, true));
    g.core.timers.freeze = 100;
    assert_eq!(blinking(g.tick(NONE, 1), true), game_frame(false, false, false, false, true));
    assert_eq!(blinking(g.tick(NONE, 1), true), game_frame(false, false, false, false, false));
}

#[test]
fn all_timers_count_down_every_tick_of_a_game() {
    let mut g = playing();
    g.core.timers = PowerupTimers { freeze: 3, homing: 1, laser: 0, shield: 200 };
    g.tick(NONE, 1);
    assert_eq!(g.core.timers, PowerupTimers { freeze: 2, homing: 0, laser: 0, shield: 199 });
    g.tick(B, 1);
    assert_eq!(g.core.timers, PowerupTimers { freeze: 1, homing: 0, laser: 0, shield: 198 });
    g.core.state = GameState::GameOver;
    g.tick(NONE, 1);
    assert_eq!(g.core.timers, PowerupTimers { freeze: 1, homing: 0, laser: 0, shield: 198 });
}

#[test]
fn freeze_holds_obstacles_in_place() {
    let mut g = playing();
    g.core.timers.freeze = 2;
    g.obstacles[0] = Obstacle { x: 10, y: 50, active: true };
    g.tick(NONE, 1);
    assert_eq!(g.obstacles[0].y, 50);
    g.tick(NONE, 1);
    assert_eq!(g.obstacles[0].y, 50);
    g.tick(NONE, 1);
    assert_eq!(g.obstacles[0].y, 52);
}

#[test]
fn steering_buttons_move_the_ship_while_held() {
    let mut g = playing();
    g.tick(B, 1);
    assert_eq!(g.core.player.x, 103);
    g.tick(B, 1);
    assert_eq!(g.core.player.x, 98);
    g.tick(Y, 1);
    assert_eq!(g.core.player.x, 103);
    g.tick(NONE, 1);
    assert_eq!(g.core.player.x, 103);
}

#[test]
fn fire_button_fires_once_per_press() {
    let mut g = playing();
    g.tick(X, 1);
    assert_eq!(g.missiles[0], Missile { x: 119, y: 110, active: true, homing: false });
    g.tick(X, 1);
    assert_eq!(g.missiles[0], Missile { x: 119, y: 106, active: true, homing: false });
    assert!(!g.missiles[1].active);
    g.tick(NONE, 1);
    g.tick(A, 1);
    assert_eq!(g.missiles[1], Missile { x: 119, y: 110, active: true, homing: false });
}

#[test]
fn chord_in_a_game_sets_off_a_bomb() {
    let mut g = playing();
    g.tick(NONE, 1);
    g.core.player.bombs = 1;
    g.core.score.score = 20;
    g.obstacles[0] = Obstacle { x: 10, y: 50, active: true };
    g.obstacles[5] = Obstacle { x: 200, y: 30, active: true };
    g.tick(X, 1);
    assert_eq!(g.core.player.bombs, 1);
    let f = g.tick(CHORD, 1);
    assert_eq!(blinking(f, true), game_frame(false, true, false, true, false));
    assert_eq!(g.core.player.bombs, 0);
    assert_eq!(g.core.score, ScoreState { score: 24, speed_base_score: 24, high_score: 0 });
    assert!(g.obstacles.iter().all(|o| !o.active));
    // the difficulty is back at its base: obstacles fall at two pixels a tick
    g.obstacles[0] = Obstacle { x: 10, y: 50, active: true };
    g.tick(CHORD, 1);
    assert_eq!(g.obstacles[0].y, 52);
    assert_eq!(g.core.player.bombs, 0);
    assert_eq!(g.core.score.score, 24);
}

#[test]
fn laser_beam_is_reported_for_its_tick_only() {
    let mut g = playing();
    g.tick(NONE, 1);
    g.core.timers.laser = 50;
    g.obstacles[0] = Obstacle { x: 100, y: 20, active: true };
    let f = g.tick(A, 1);
    assert_eq!(f.beam, Some(Beam { x0: 120, y0: 120, x1: 106, y1: 24 }));
    assert!(!g.obstacles[0].active);
    assert_eq!(g.core.score.score, 2);
    assert!(g.missiles.iter().all(|m| !m.active));
    let f = g.tick(A, 1);
    assert_eq!(f.beam, None);
}

#[test]
fn flicker_is_on_for_two_ticks_in_four() {
    let mut g = playing();
    let mut phases = [false; 8];
    for i in 0..8 {
        assert_eq!(g.core.frame, i as u32);
        phases[i] = g.tick(NONE, 1).blink;
    }
    assert_eq!(phases, [true, true, false, false, true, true, false, false]);
    g.core.frame = u32::MAX;
    assert!(!g.tick(NONE, 1).blink);
    assert!(g.tick(NONE, 1).blink);
}

#[test]
fn gift_fades_in_its_last_twenty_ticks() {
    assert!(!Gift { x: 0, y: 20, life: 80, active: true }.is_fading());
    assert!(!Gift { x: 0, y: 20, life: 21, active: true }.is_fading());
    assert!(Gift { x: 0, y: 20, life: 20, active: true }.is_fading());
    assert!(Gift { x: 0, y: 20, life: 1, active: true }.is_fading());
}

#[test]
fn tick_count_wraps() {
    let mut g = Game::new();
    g.core.frame = u32::MAX;
    g.tick(NONE, 1);
    assert_eq!(g.core.frame, 0);
    g.tick(NONE, 1);
    assert_eq!(g.core.frame, 1);
}

#[test]
fn same_inputs_same_session() {
    let mut a = Game::new();
    let mut b = Game::new();
    let mut seed: u32 = 99;
    for t in 0..5000u64 {
        seed = seed.wrapping_mul(1664525).wrapping_add(1013904223);
        let bits = seed >> 20;
        let down = Buttons {
            a: bits & 1 != 0 && bits & 16 != 0,
            b: bits & 2 != 0,
            x: bits & 4 != 0 && bits & 32 != 0,
            y: bits & 8 != 0,
        };
        let fa = a.tick(down, 1000 + t);
        let fb = b.tick(down, 1000 + t);
        assert_eq!(fa, fb);
        assert_eq!(a, b);
    }
}

fn check_tick(g: &mut Game, down: Buttons, clock: u64) {
    let before = *g;
    let f = g.tick(down, clock);
    assert!(g.is_valid());
    assert_eq!(f.state, before.core.state);
    assert_eq!(f.indicator, before.core.state == GameState::Playing);
    assert!(g.core.player.lives <= MAX_LIVES);
    assert!(g.core.player.bombs <= MAX_BOMBS);
    assert!(g.core.score.speed_base_score <= g.core.score.score);
    assert!(g.core.score.high_score >= before.core.score.high_score);
    assert_eq!(g.core.frame, before.core.frame.wrapping_add(1));
    if before.core.state == GameState::Playing {
        assert!(g.core.score.score >= before.core.score.score);
        assert!(g.core.player.lives + 1 >= before.core.player.lives);
        if g.core.state == GameState::Playing {
            assert!(g.core.player.lives > 0);
        } else if g.core.state == GameState::GameOver {
            assert_eq!(g.core.player.lives, 0);
        } else {
            assert!(f.skipped && before.core.demo_mode);
        }
    } else if before.core.state == GameState::GameOver {
        assert_eq!(g.core.score.score, before.core.score.score);
    }
    assert!(g.obstacles.iter().filter(|o| o.active).count() <= MAX_OBS);
    assert!(g.missiles.iter().filter(|m| m.active).count() <= MAX_MISSILES);
    assert!(g.particles.iter().filter(|p| p.life > 0).count() <= MAX_PARTICLES);
    assert!(g.gifts.iter().filter(|p| p.active).count() <= MAX_GIFTS);
}

#[test]
fn invariant_holds_over_a_long_random_session() {
    let mut g = Game::new();
    let mut seed: u32 = 2024;
    let mut games_over = 0;
    for t in 0..60_000u64 {
        seed = seed.wrapping_mul(1664525).wrapping_add(1013904223);
        let bits = seed >> 18;
        let down = Buttons {
            a: bits & 3 == 0,
            b: bits & 4 != 0,
            x: bits & 24 == 0,
            y: bits & 32 != 0,
        };
        let was = g.core.state;
        check_tick(&mut g, down, t * 977);
        if was == GameState::Playing && g.core.state == GameState::GameOver {
            games_over += 1;
        }
    }
    assert!(games_over > 0);
    assert!(g.core.score.high_score > 0);
}

#[test]
fn invariant_holds_while_the_demo_plays_itself() {
    let mut g = Game::new();
    let mut played = 0;
    let mut over = 0;
    for t in 0..60_000u64 {
        if t % 997 == 996 && g.core.state == GameState::Playing {
            // the autoplay is too good to lose by itself: put an end to the game
            g.core.player.lives = 1;
            g.core.player.invincible = 0;
            g.core.timers.shield = 0;
            g.obstacles[0] = Obstacle { x: g.core.player.x, y: 118, active: true };
        }
        // the chord is held throughout: no edges, so every game is a demo
        check_tick(&mut g, CHORD, t);
        assert!(g.core.state == GameState::Title || g.core.demo_mode);
        match g.core.state {
            GameState::Playing => played += 1,
            GameState::GameOver => over += 1,
            GameState::Title => {},
        }
    }
    assert!(played > 1000);
    assert!(over >= 40 * 50);
    assert!(g.core.score.high_score > 0);
}

#[test]
fn power_ups_turn_up_in_a_long_game() {
    let mut g = Game::new();
    let mut gifts_seen = 0;
    let mut powered = 0;
    let mut fired = false;
    for t in 0..200_000u64 {
        fired = !fired;
        let down = Buttons { a: false, b: t % 64 < 28, x: fired, y: t % 64 >= 36 };
        let was_gift = g.gifts.iter().any(|p| p.active);
        check_tick(&mut g, down, t + 1);
        if !was_gift && g.gifts.iter().any(|p| p.active) {
            gifts_seen += 1;
        }
        let t = g.core.timers;
        if t.freeze == 199 || t.homing == 199 || t.laser == 199 || t.shield == 199 {
            powered += 1;
        }
    }
    assert!(gifts_seen > 10);
    assert!(powered > 0);
}

#[test]
fn gift_appears_and_falls_in_a_tick() {
    let mut g = playing();
    g.tick(NONE, 1);
    g.core.gift_timer = 199;
    g.core.rng.state = 3;
    g.tick(NONE, 1);
    // placed at the top of the field and moved once in the same tick
    assert_eq!(g.gifts[0], Gift { x: 31, y: 15, life: 79, active: true });
    assert_eq!(g.core.gift_timer, 0);
    assert_eq!(g.core.rng.state, 201886211);
    for _ in 0..78 {
        g.tick(NONE, 1);
    }
    assert_eq!(g.gifts[0], Gift { x: 31, y: 93, life: 1, active: true });
    let score = g.core.score.score;
    g.tick(NONE, 1);
    assert!(!g.gifts[0].active);
    assert_eq!(g.core.score.score, score);
}

#[test]
fn missile_picks_up_a_gift_in_a_tick() {
    let mut g = playing();
    g.tick(NONE, 1);
    g.core.rng.state = 48;
    g.core.timers.shield = 0;
    // after the move the gift is at row 41 and the missile at row 42
    g.gifts[1] = Gift { x: 60, y: 40, life: 40, active: true };
    g.missiles[0] = Missile { x: 62, y: 46, active: true, homing: false };
    let f = g.tick(NONE, 1);
    assert!(!g.gifts[1].active);
    assert!(!g.missiles[0].active);
    // granted at the full length and counted down once at the end of the tick
    assert_eq!(g.core.timers, PowerupTimers { freeze: 0, homing: 0, laser: 0, shield: 199 });
    assert!(f.powerups_dirty);
    assert!(!f.score_dirty);
    assert_eq!(g.particles.iter().filter(|p| p.life > 0).count(), 4);
}

#[test]
fn missiles_fired_under_the_homing_timer_chase_obstacles() {
    let mut g = playing();
    g.tick(NONE, 1);
    g.core.timers.homing = 1;
    g.core.timers.freeze = 100;
    g.obstacles[0] = Obstacle { x: 10, y: 20, active: true };
    g.tick(X, 1);
    assert_eq!(g.core.timers.homing, 0);
    assert!(g.missiles[0].homing);
    // launched at column 119 and steered once in the same tick: the offset of 104
    // spread over 94 rows at the closing speed 4, that is 23 frames
    assert_eq!(g.missiles[0], Missile { x: 115, y: 110, active: true, homing: true });
    let mut last = g.missiles[0].x;
    let mut hit = false;
    for _ in 0..40 {
        g.tick(NONE, 1);
        if !g.missiles[0].active {
            hit = !g.obstacles[0].active;
            break;
        }
        assert!(g.missiles[0].x <= last);
        assert!(g.missiles[0].x >= 10);
        last = g.missiles[0].x;
    }
    assert!(hit);
    assert_eq!(g.core.score.score, 2);
}

#[test]
fn shield_protects_the_ship_in_a_tick() {
    let mut g = playing();
    g.tick(NONE, 1);
    g.core.timers.shield = 3;
    g.core.timers.freeze = 10;
    g.obstacles[2] = Obstacle { x: 108, y: 120, active: true };
    for _ in 0..3 {
        g.tick(NONE, 1);
        assert_eq!(g.core.player.lives, 3);
        assert!(g.obstacles[2].active);
    }
    assert_eq!(g.core.timers.shield, 0);
    g.tick(NONE, 1);
    assert_eq!(g.core.player, Player { x: 108, lives: 2, bombs: 3, invincible: 20 });
    assert!(!g.obstacles[2].active);
}

#[test]
fn freeze_gift_clears_the_danger_band_in_a_tick() {
    let mut g = playing();
    g.tick(NONE, 1);
    g.core.rng.state = 98;
    g.gifts[0] = Gift { x: 60, y: 40, life: 40, active: true };
    g.missiles[0] = Missile { x: 62, y: 46, active: true, homing: false };
    g.obstacles[0] = Obstacle { x: 200, y: 100, active: true };
    g.obstacles[1] = Obstacle { x: 200, y: 50, active: true };
    g.tick(NONE, 1);
    assert_eq!(g.core.timers.freeze, 199);
    assert_eq!(g.obstacles[0], Obstacle { x: 200, y: 102, active: false });
    assert_eq!(g.obstacles[1], Obstacle { x: 200, y: 52, active: true });
    assert_eq!(g.core.score.score, 0);
    g.tick(NONE, 1);
    assert_eq!(g.obstacles[1].y, 52);
}

#[test]
fn broken_sessions_are_told_apart() {
    let g = playing();
    assert!(g.is_valid());
    let mut h = g;
    h.core.player.lives = 4;
    assert!(!h.is_valid());
    h = g;
    h.core.player.lives = 0;
    assert!(!h.is_valid());
    h.core.state = GameState::GameOver;
    assert!(h.is_valid());
    h = g;
    h.core.player.bombs = 4;
    assert!(!h.is_valid());
    h = g;
    h.core.player.x = 217;
    assert!(!h.is_valid());
    h = g;
    h.core.score = ScoreState { score: 3, speed_base_score: 4, high_score: 0 };
    assert!(!h.is_valid());
    h = g;
    h.core.rng.state = 0;
    assert!(!h.is_valid());
    h = g;
    h.core.timers.laser = 201;
    assert!(!h.is_valid());
    h = g;
    h.core.spawn_timer = 30;
    assert!(!h.is_valid());
    h = g;
    h.core.gift_timer = 201;
    assert!(!h.is_valid());
    h = g;
    h.obstacles[5] = Obstacle { x: 10, y: 200, active: true };
    assert!(!h.is_valid());
    assert!(!h.pools_valid());
    h.obstacles[5].active = false;
    assert!(h.is_valid());
    h.missiles[7] = Missile { x: -1, y: 20, active: true, homing: false };
    assert!(!h.is_valid());
    h = g;
    h.particles[35] = Particle { x: 0, y: 0, dx: 9, dy: 0, life: 2 };
    assert!(!h.is_valid());
    h = g;
    h.gifts[1] = Gift { x: 0, y: 100, life: 80, active: true };
    assert!(!h.is_valid());
}
