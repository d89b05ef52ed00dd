use dodge_shoot::entities::{Missile, Obstacle, Particle, MAX_MISSILES};
use dodge_shoot::game::Game;
use dodge_shoot::input::Controls;
use dodge_shoot::particles::BurstShape;
use dodge_shoot::player::ScoreState;
use dodge_shoot::rng::Rng;
use dodge_shoot::weapons::Beam;

fn playing() -> Game {
    let mut g = Game::new();
    g.start_game(false);
    g.serve_entry();
    g
}

fn live_particles(g: &Game) -> usize {
    g.particles.iter().filter(|p| p.life > 0).count()
}

fn live_missiles(g: &Game) -> usize {
    g.missiles.iter().filter(|m| m.active).count()
}

fn controls(fire: bool, fire_held: bool, bomb: bool) -> Controls {
    Controls { left: false, right: false, fire, fire_held, bomb }
}

#[test]
fn destroying_an_obstacle_scores_two_and_throws_debris() {
    let mut g = playing();
    g.obstacles[3] = Obstacle { x: 98, y: 48, active: true };
    g.core.score.score = 5;
    g.destroy_obstacle(3, BurstShape::debris());
    assert_eq!(g.obstacles[3], Obstacle { x: 98, y: 48, active: false });
    assert_eq!(g.core.score.score, 7);
    assert_eq!(live_particles(&g), 6);
    assert_eq!(g.particles[0], Particle { x: 100, y: 55, dx: 0, dy: 2, life: 8 });
    assert_eq!(g.particles[5], Particle { x: 109, y: 49, dx: -1, dy: -1, life: 8 });
    assert_eq!(g.core.rng.state, 1652327021);
    assert!(g.is_valid());
}

#[test]
fn bomb_clears_two_obstacles_with_one_charge() {
    let mut g = playing();
    g.core.player.bombs = 1;
    g.core.score.score = 7;
    g.core.score.speed_base_score = 3;
    g.obstacles[1] = Obstacle { x: 50, y: 40, active: true };
    g.obstacles[4] = Obstacle { x: 150, y: 80, active: true };
    g.detonate_bomb();
    assert!(g.obstacles.iter().all(|o| !o.active));
    assert_eq!(g.core.score, ScoreState { score: 11, speed_base_score: 11, high_score: 0 });
    assert_eq!(g.core.score.current_progress(), 0);
    assert_eq!(g.core.player.bombs, 0);
    assert_eq!(live_particles(&g), 8);
    let mut rng = Rng::new(12345);
    for _ in 0..32 {
        rng.next_u32();
    }
    assert_eq!(g.core.rng, rng);
    assert!(g.is_valid());
}

#[test]
fn bomb_bursts_are_centred_on_each_obstacle_in_slot_order() {
    let mut g = playing();
    g.obstacles[1] = Obstacle { x: 50, y: 40, active: true };
    g.obstacles[4] = Obstacle { x: 150, y: 80, active: true };
    g.detonate_bomb();
    for p in &g.particles[0..4] {
        assert!(50 <= p.x && p.x < 62 && 40 <= p.y && p.y < 48);
    }
    for p in &g.particles[4..8] {
        assert!(150 <= p.x && p.x < 162 && 80 <= p.y && p.y < 88);
    }
    assert_eq!(g.particles[8], Particle::new());
}

#[test]
fn bomb_on_an_empty_field_still_costs_a_charge_and_resets_the_baseline() {
    let mut g = playing();
    g.core.score.score = 42;
    g.core.score.speed_base_score = 10;
    g.detonate_bomb();
    assert_eq!(g.core.player.bombs, 2);
    assert_eq!(g.core.score, ScoreState { score: 42, speed_base_score: 42, high_score: 0 });
    assert_eq!(live_particles(&g), 0);
    assert_eq!(g.core.rng, Rng::new(12345));
}

#[test]
fn bomb_control_without_a_charge_does_nothing() {
    let mut g = playing();
    g.core.player.bombs = 0;
    g.core.score.score = 9;
    g.obstacles[0] = Obstacle { x: 50, y: 40, active: true };
    let before = g;
    let beam = g.act(&controls(false, true, true));
    assert_eq!(beam, None);
    assert_eq!(g, before);
}

#[test]
fn bomb_control_with_a_charge_detonates() {
    let mut g = playing();
    g.core.score.score = 9;
    g.obstacles[0] = Obstacle { x: 50, y: 40, active: true };
    g.obstacles[1] = Obstacle { x: 90, y: 40, active: true };
    g.obstacles[2] = Obstacle { x: 130, y: 40, active: true };
    let beam = g.act(&controls(false, true, true));
    assert_eq!(beam, None);
    assert_eq!(g.core.player.bombs, 2);
    assert_eq!(g.core.score, ScoreState { score: 15, speed_base_score: 15, high_score: 0 });
    assert!(g.obstacles.iter().all(|o| !o.active));
    assert_eq!(live_missiles(&g), 0);
}

#[test]
fn fire_launches_a_missile_from_the_muzzle() {
    let mut g = playing();
    let beam = g.fire(&controls(true, true, false));
    assert_eq!(beam, None);
    assert_eq!(g.missiles[0], Missile { x: 119, y: 114, active: true, homing: false });
    assert_eq!(live_missiles(&g), 1);
    g.core.player.x = 0;
    g.fire(&controls(true, true, false));
    assert_eq!(g.missiles[1], Missile { x: 11, y: 114, active: true, homing: false });
    g.core.player.x = 216;
    g.fire(&controls(true, true, false));
    assert_eq!(g.missiles[2], Missile { x: 227, y: 114, active: true, homing: false });
    assert!(g.is_valid());
}

#[test]
fn held_fire_without_an_edge_launches_nothing() {
    let mut g = playing();
    let before = g;
    assert_eq!(g.fire(&controls(false, true, false)), None);
    assert_eq!(g.fire(&controls(false, false, false)), None);
    assert_eq!(g, before);
}

#[test]
fn missile_is_homing_when_fired_under_the_homing_timer() {
    let mut g = playing();
    g.core.timers.homing = 1;
    g.launch_missile();
    g.core.timers.homing = 0;
    g.launch_missile();
    assert_eq!(g.missiles[0], Missile { x: 119, y: 114, active: true, homing: true });
    assert_eq!(g.missiles[1], Missile { x: 119, y: 114, active: true, homing: false });
    // the flag is fixed at launch: a later timer does not change a missile in flight
    g.core.timers.homing = 200;
    g.advance();
    assert!(g.missiles[0].homing);
    assert!(!g.missiles[1].homing);
}

#[test]
fn launch_takes_the_first_free_slot_and_is_dropped_when_full() {
    let mut g = playing();
    for i in 0..MAX_MISSILES {
        g.missiles[i] = Missile { x: 10, y: 50, active: true, homing: false };
    }
    let full = g;
    g.launch_missile();
    assert_eq!(g, full);
    g.missiles[5].active = false;
    g.launch_missile();
    assert_eq!(g.missiles[5], Missile { x: 119, y: 114, active: true, homing: false });
    assert_eq!(live_missiles(&g), MAX_MISSILES);
}

#[test]
fn laser_destroys_the_nearest_obstacle_at_once() {
    let mut g = playing();
    g.core.timers.laser = 10;
    g.core.score.score = 3;
    g.obstacles[0] = Obstacle { x: 100, y: 20, active: true };
    g.obstacles[3] = Obstacle { x: 60, y: 100, active: true };
    let beam = g.fire(&controls(false, true, false));
    assert_eq!(beam, Some(Beam { x0: 120, y0: 120, x1: 66, y1: 104 }));
    assert_eq!(g.obstacles[0], Obstacle { x: 100, y: 20, active: true });
    assert_eq!(g.obstacles[3], Obstacle { x: 60, y: 100, active: false });
    assert_eq!(g.core.score.score, 5);
    assert_eq!(live_particles(&g), 4);
    assert_eq!(live_missiles(&g), 0);
    // held on the next tick: the next nearest goes
    let beam = g.fire(&controls(false, true, false));
    assert_eq!(beam, Some(Beam { x0: 120, y0: 120, x1: 106, y1: 24 }));
    assert_eq!(g.core.score.score, 7);
    assert!(g.obstacles.iter().all(|o| !o.active));
    assert!(g.is_valid());
}

#[test]
fn laser_replaces_the_missile_even_without_a_target() {
    let mut g = playing();
    g.core.timers.laser = 1;
    let before = g;
    assert_eq!(g.fire(&controls(true, true, false)), None);
    assert_eq!(g, before);
    assert_eq!(g.fire_laser(), None);
    assert_eq!(g, before);
}

#[test]
fn laser_needs_fire_held_and_its_timer() {
    let mut g = playing();
    g.obstacles[0] = Obstacle { x: 100, y: 20, active: true };
    g.core.timers.laser = 10;
    assert_eq!(g.fire(&controls(false, false, false)), None);
    assert!(g.obstacles[0].active);
    g.core.timers.laser = 0;
    assert_eq!(g.fire(&controls(true, true, false)), None);
    assert!(g.obstacles[0].active);
    assert_eq!(live_missiles(&g), 1);
}

#[test]
fn act_moves_then_bombs_then_fires() {
    let mut g = playing();
    g.obstacles[0] = Obstacle { x: 100, y: 20, active: true };
    let c = Controls { left: true, right: false, fire: true, fire_held: true, bomb: false };
    assert_eq!(g.act(&c), None);
    assert_eq!(g.core.player.x, 103);
    // the missile leaves from where the ship has moved to
    assert_eq!(g.missiles[0], Missile { x: 114, y: 114, active: true, homing: false });
    assert!(g.obstacles[0].active);
}
