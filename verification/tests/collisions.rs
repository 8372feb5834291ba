use super_jumper::collisions::{
    check_castle_collisions, check_coin_collisions, check_platform_collisions,
    check_spring_collisions, check_squirrel_collisions, step_pulverizing, COIN_SCORE,
};
use super_jumper::entities::{
    Bob, Castle, Coin, Platform, PlatformState, Spring, Squirrel, PULVERIZE_TICKS,
};
use super_jumper::world::{BOB_JUMP_VELOCITY, SPRING_JUMP_VELOCITY};

fn falling_bob() -> Bob {
    Bob { x: 0, y: 0, velocity_x: 0, velocity_y: -100_000 }
}

fn rising_bob() -> Bob {
    Bob { x: 0, y: 0, velocity_x: 0, velocity_y: 100_000 }
}

fn platform_at(x: i64, y: i64) -> Platform {
    Platform { x, y, moving: false, dir: 1, state: PlatformState::Normal }
}

#[test]
fn platform_bounce_on_first_hit() {
    let mut bob = falling_bob();
    // The second platform also overlaps, but the first hit wins.
    let mut platforms = vec![platform_at(10_000_000, -20_000_000), platform_at(0, -20_000_000)];
    let hit = check_platform_collisions(&mut bob, &mut platforms, 999_999);
    assert!(hit);
    assert_eq!(bob.velocity_y, BOB_JUMP_VELOCITY);
    assert_eq!(platforms[0].state, PlatformState::Pulverizing(PULVERIZE_TICKS));
    assert_eq!(platforms[1].state, PlatformState::Normal);
}

#[test]
fn platform_pulverize_needs_the_draw() {
    let mut bob = falling_bob();
    let mut platforms = vec![platform_at(0, -20_000_000)];
    let hit = check_platform_collisions(&mut bob, &mut platforms, 500_000);
    assert!(hit);
    // A draw at the threshold exactly does not pulverize (strictly above).
    assert_eq!(platforms[0].state, PlatformState::Normal);
}

#[test]
fn rising_player_fires_no_platform_or_spring_rule() {
    let mut bob = rising_bob();
    let mut platforms = vec![platform_at(0, -20_000_000)];
    let springs = vec![Spring { x: 0, y: -20_000_000 }];
    assert!(!check_platform_collisions(&mut bob, &mut platforms, 999_999));
    assert!(!check_spring_collisions(&mut bob, &springs));
    assert_eq!(bob.velocity_y, 100_000);
    assert_eq!(platforms[0].state, PlatformState::Normal);
}

#[test]
fn exact_touching_is_no_collision() {
    let mut bob = falling_bob();
    // Half-sizes sum to 48 units on x: a centre distance of exactly 48
    // units only touches, one micro-unit less overlaps.
    let mut touching = vec![platform_at(48_000_000, 0)];
    assert!(!check_platform_collisions(&mut bob, &mut touching, 999_999));
    let mut overlapping = vec![platform_at(47_999_999, 0)];
    assert!(check_platform_collisions(&mut bob, &mut overlapping, 0));
}

#[test]
fn spring_boosts_half_again_and_survives() {
    let mut bob = falling_bob();
    let springs = vec![Spring { x: 5_000_000, y: -25_000_000 }];
    let hit = check_spring_collisions(&mut bob, &springs);
    assert!(hit);
    assert_eq!(bob.velocity_y, SPRING_JUMP_VELOCITY);
    assert_eq!(springs.len(), 1);
}

#[test]
fn coins_collect_all_hits_in_one_tick_and_only_once() {
    let bob = falling_bob();
    let mut coins = vec![
        Coin { x: 0, y: 0 },
        Coin { x: 100_000_000, y: 0 },
        Coin { x: 10_000_000, y: 10_000_000 },
    ];
    let mut points: u32 = 7;
    let collected = check_coin_collisions(&bob, &mut coins, &mut points);
    assert_eq!(collected, 2);
    assert_eq!(points, 7 + 2 * COIN_SCORE);
    assert_eq!(coins.len(), 1);
    assert_eq!(coins[0].x, 100_000_000);
    // A second pass finds nothing: each coin scored at most once.
    let collected_again = check_coin_collisions(&bob, &mut coins, &mut points);
    assert_eq!(collected_again, 0);
    assert_eq!(points, 27);
}

#[test]
fn squirrel_contact_is_reported_regardless_of_direction() {
    let rising = rising_bob();
    let squirrels = vec![Squirrel { x: 0, y: 20_000_000, dir: 1 }];
    assert!(check_squirrel_collisions(&rising, &squirrels));
    let clear = vec![Squirrel { x: 200_000_000, y: 0, dir: 1 }];
    assert!(!check_squirrel_collisions(&rising, &clear));
}

#[test]
fn castle_contact_is_reported() {
    let bob = falling_bob();
    assert!(check_castle_collisions(&bob, &vec![Castle { x: 40_000_000, y: 0 }]));
    assert!(!check_castle_collisions(&bob, &vec![Castle { x: 200_000_000, y: 0 }]));
}

#[test]
fn pulverizing_platform_counts_down_and_is_removed_exactly_on_time() {
    let mut platforms = vec![Platform {
        x: 0,
        y: 0,
        moving: false,
        dir: 1,
        state: PlatformState::Pulverizing(3),
    }];
    step_pulverizing(&mut platforms);
    assert_eq!(platforms[0].state, PlatformState::Pulverizing(2));
    step_pulverizing(&mut platforms);
    assert_eq!(platforms[0].state, PlatformState::Pulverizing(1));
    assert_eq!(platforms.len(), 1);
    step_pulverizing(&mut platforms);
    assert!(platforms.is_empty());
}

#[test]
fn normal_platforms_survive_the_countdown_pass() {
    let mut platforms = vec![platform_at(0, 0), platform_at(10_000_000, 0)];
    for _ in 0..PULVERIZE_TICKS + 2 {
        step_pulverizing(&mut platforms);
    }
    assert_eq!(platforms.len(), 2);
}
