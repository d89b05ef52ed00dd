use dodge_shoot::entities::{Gift, Missile, Obstacle, MAX_GIFTS, MAX_MISSILES, MAX_OBS};
use dodge_shoot::motion::{move_gifts, move_missiles, move_obstacles, steer_missile};
use dodge_shoot::player::Player;

fn homing_at(x: i32, y: i32) -> Missile {
    Missile { x, y, active: true, homing: true }
}

fn one_obstacle(x: i32, y: i32) -> [Obstacle; MAX_OBS] {
    let mut pool = [Obstacle::new(); MAX_OBS];
    pool[2] = Obstacle { x, y, active: true };
    pool
}

#[test]
fn obstacles_fall_by_speed() {
    let mut pool = [Obstacle::new(); MAX_OBS];
    pool[0] = Obstacle { x: 10, y: 14, active: true };
    pool[1] = Obstacle { x: 20, y: 100, active: true };
    pool[2] = Obstacle { x: 30, y: 100, active: false };
    let passed = move_obstacles(&mut pool, 3);
    assert_eq!(passed, 0);
    assert_eq!(pool[0], Obstacle { x: 10, y: 17, active: true });
    assert_eq!(pool[1], Obstacle { x: 20, y: 103, active: true });
    assert_eq!(pool[2], Obstacle { x: 30, y: 100, active: false });
}

#[test]
fn obstacles_below_the_screen_leave_and_are_counted() {
    let mut pool = [Obstacle::new(); MAX_OBS];
    pool[0] = Obstacle { x: 10, y: 129, active: true };
    pool[1] = Obstacle { x: 20, y: 130, active: true };
    pool[4] = Obstacle { x: 40, y: 135, active: true };
    let passed = move_obstacles(&mut pool, 6);
    assert_eq!(passed, 2);
    assert_eq!(pool[0], Obstacle { x: 10, y: 135, active: true });
    assert_eq!(pool[1], Obstacle { x: 20, y: 136, active: false });
    assert_eq!(pool[4], Obstacle { x: 40, y: 141, active: false });
}

#[test]
fn frozen_obstacles_stand_still() {
    let mut pool = [Obstacle { x: 10, y: 135, active: true }; MAX_OBS];
    let before = pool;
    assert_eq!(move_obstacles(&mut pool, 0), 0);
    assert_eq!(pool, before);
}

#[test]
fn gifts_fall_slowly_and_age() {
    let mut pool = [Gift::new(); MAX_GIFTS];
    pool[0] = Gift { x: 31, y: 14, life: 80, active: true };
    move_gifts(&mut pool);
    assert_eq!(pool[0], Gift { x: 31, y: 15, life: 79, active: true });
    assert_eq!(pool[1], Gift::new());
    for _ in 0..78 {
        move_gifts(&mut pool);
    }
    assert_eq!(pool[0], Gift { x: 31, y: 93, life: 1, active: true });
    move_gifts(&mut pool);
    assert_eq!(pool[0], Gift { x: 31, y: 94, life: 0, active: false });
    move_gifts(&mut pool);
    assert_eq!(pool[0], Gift { x: 31, y: 94, life: 0, active: false });
}

#[test]
fn missiles_climb_and_leave_at_the_top() {
    let none = [Obstacle::new(); MAX_OBS];
    let mut pool = [Missile::new(); MAX_MISSILES];
    pool[0] = Missile { x: 119, y: 114, active: true, homing: false };
    pool[1] = Missile { x: 50, y: 12, active: true, homing: false };
    pool[2] = Missile { x: 60, y: 11, active: true, homing: false };
    pool[3] = Missile { x: 70, y: 50, active: false, homing: false };
    move_missiles(&mut pool, &none, 2);
    assert_eq!(pool[0], Missile { x: 119, y: 110, active: true, homing: false });
    assert_eq!(pool[1], Missile { x: 50, y: 8, active: true, homing: false });
    assert_eq!(pool[2], Missile { x: 60, y: 7, active: false, homing: false });
    assert_eq!(pool[3], Missile { x: 70, y: 50, active: false, homing: false });
}

#[test]
fn plain_missiles_ignore_obstacles() {
    let pool_o = one_obstacle(200, 20);
    let mut pool = [Missile::new(); MAX_MISSILES];
    pool[0] = Missile { x: 100, y: 100, active: true, homing: false };
    move_missiles(&mut pool, &pool_o, 2);
    assert_eq!(pool[0], Missile { x: 100, y: 96, active: true, homing: false });
}

#[test]
fn homing_spreads_the_offset_over_the_frames_to_intercept() {
    // offset 55, 80 rows at closing speed 6: 13 frames, 55 / 13 = 4
    assert_eq!(steer_missile(&homing_at(100, 100), &one_obstacle(150, 20), 2), 4);
    // the same to the left rounds towards zero
    assert_eq!(steer_missile(&homing_at(100, 100), &one_obstacle(40, 20), 2), -4);
    // frozen obstacles close at the missile's speed alone: 20 frames, 55 / 20 = 2
    assert_eq!(steer_missile(&homing_at(100, 100), &one_obstacle(150, 20), 0), 2);
    // fastest obstacles: closing speed 10, 8 frames, 55 / 8 = 6
    assert_eq!(steer_missile(&homing_at(100, 100), &one_obstacle(150, 20), 6), 6);
}

#[test]
fn homing_turn_is_capped_at_six() {
    // 10 rows away: one frame, the whole offset of 105 at once, capped
    assert_eq!(steer_missile(&homing_at(100, 100), &one_obstacle(200, 90), 2), 6);
    assert_eq!(steer_missile(&homing_at(200, 100), &one_obstacle(10, 95), 2), -6);
}

#[test]
fn homing_nudges_by_one_when_the_turn_rounds_to_nothing() {
    // offset 3 over 13 frames
    assert_eq!(steer_missile(&homing_at(100, 100), &one_obstacle(98, 20), 2), 1);
    assert_eq!(steer_missile(&homing_at(100, 100), &one_obstacle(92, 20), 2), -1);
    // aligned: no offset, no nudge
    assert_eq!(steer_missile(&homing_at(100, 100), &one_obstacle(95, 20), 2), 0);
}

#[test]
fn homing_takes_at_least_one_frame() {
    // target on the same row or below: one frame
    assert_eq!(steer_missile(&homing_at(100, 100), &one_obstacle(99, 100), 2), 4);
    assert_eq!(steer_missile(&homing_at(100, 100), &one_obstacle(150, 120), 2), 6);
    // five rows above at closing speed 6 rounds to no frame at all: one
    assert_eq!(steer_missile(&homing_at(100, 100), &one_obstacle(98, 95), 2), 3);
}

#[test]
fn homing_without_obstacles_flies_straight() {
    assert_eq!(steer_missile(&homing_at(100, 100), &[Obstacle::new(); MAX_OBS], 2), 0);
    let mut pool = [Missile::new(); MAX_MISSILES];
    pool[5] = homing_at(100, 100);
    move_missiles(&mut pool, &[Obstacle::new(); MAX_OBS], 2);
    assert_eq!(pool[5], homing_at(100, 96));
}

#[test]
fn homing_missile_steers_towards_the_nearest_obstacle() {
    let mut obstacles = [Obstacle::new(); MAX_OBS];
    obstacles[0] = Obstacle { x: 10, y: 90, active: true };
    obstacles[1] = Obstacle { x: 130, y: 80, active: true };
    let mut pool = [Missile::new(); MAX_MISSILES];
    pool[0] = homing_at(100, 100);
    pool[1] = Missile { x: 100, y: 100, active: true, homing: false };
    move_missiles(&mut pool, &obstacles, 2);
    // nearest is slot 1 (centre 136, 84): offset 35, 20 rows: 3 frames, 35 / 3 = 11, capped
    assert_eq!(pool[0], homing_at(106, 96));
    assert_eq!(pool[1], Missile { x: 100, y: 96, active: true, homing: false });
}

#[test]
fn homing_missile_converges_and_stays_on_screen() {
    let obstacles = one_obstacle(228, 14);
    let mut pool = [Missile::new(); MAX_MISSILES];
    pool[0] = homing_at(0, 114);
    let mut last_gap = 233;
    for _ in 0..40 {
        move_missiles(&mut pool, &obstacles, 0);
        if !pool[0].active {
            break;
        }
        let gap = 228 + 6 - (pool[0].x + 1);
        assert!(0 <= gap && gap <= last_gap);
        assert!(pool[0].is_valid());
        last_gap = gap;
    }
    assert!(last_gap < 233);
}

#[test]
fn ship_stops_at_the_edges() {
    let mut p = Player::new();
    assert_eq!(p.x, 108);
    p.steer(true, false);
    assert_eq!(p.x, 103);
    p.x = 3;
    p.steer(true, false);
    assert_eq!(p.x, 0);
    p.steer(true, false);
    assert_eq!(p.x, 0);
    p.x = 212;
    p.steer(false, true);
    assert_eq!(p.x, 216);
    p.steer(false, true);
    assert_eq!(p.x, 216);
    p.x = 100;
    p.steer(true, true);
    assert_eq!(p.x, 100);
    p.x = 2;
    p.steer(true, true);
    assert_eq!(p.x, 5);
    p.steer(false, false);
    assert_eq!(p, Player { x: 5, lives: 3, bombs: 3, invincible: 0 });
}
