use super_jumper::entities::{Bob, Platform, PlatformState, Squirrel};
use super_jumper::kinematics::{
    check_bob_has_fallen, move_bob, move_objects, update_bob, InputIntent, FLOOR_BOUNCE_Y,
};
use super_jumper::world::{BOB_JUMP_VELOCITY, BOB_MOVE_VELOCITY};

fn bob_at(x: i64, y: i64, vx: i64, vy: i64) -> Bob {
    Bob { x, y, velocity_x: vx, velocity_y: vy }
}

#[test]
fn input_sets_horizontal_velocity_directly() {
    let mut bob = Bob::at_start();
    move_bob(&mut bob, InputIntent::Right);
    assert_eq!(bob.velocity_x, BOB_MOVE_VELOCITY);
    move_bob(&mut bob, InputIntent::Left);
    assert_eq!(bob.velocity_x, -BOB_MOVE_VELOCITY);
    move_bob(&mut bob, InputIntent::Neither);
    assert_eq!(bob.velocity_x, 0);
}

#[test]
fn gravity_integrates_exactly() {
    let mut bob = bob_at(0, 0, 0, 0);
    let mut camera: i64 = 100_000_000;
    // 16 ms at -480 units/s^2: velocity -7_680 milli-units/s, and the
    // position falls by velocity * dt micro-units.
    update_bob(&mut bob, &mut camera, false, 16);
    assert_eq!(bob.velocity_y, -7_680);
    assert_eq!(bob.y, -7_680 * 16);
    assert_eq!(camera, 100_000_000);
}

#[test]
fn floor_bounce_resets_jump_velocity() {
    let mut bob = bob_at(0, FLOOR_BOUNCE_Y + 1_000, 0, -400_000);
    let mut camera: i64 = 0;
    update_bob(&mut bob, &mut camera, false, 16);
    assert!(bob.y < FLOOR_BOUNCE_Y);
    assert_eq!(bob.velocity_y, BOB_JUMP_VELOCITY);
}

#[test]
fn horizontal_world_wraps_both_ways() {
    let mut bob = bob_at(159_000_000, 0, 0, 0);
    let mut camera: i64 = 1_000_000_000;
    move_bob(&mut bob, InputIntent::Right);
    update_bob(&mut bob, &mut camera, false, 1000);
    // 159 + 250 = 409 units, wrapped down by the world width of 320.
    assert_eq!(bob.x, 409_000_000 - 320_000_000);

    let mut bob = bob_at(-159_000_000, 0, 0, 0);
    move_bob(&mut bob, InputIntent::Left);
    update_bob(&mut bob, &mut camera, false, 1000);
    assert_eq!(bob.x, -409_000_000 + 320_000_000);
}

#[test]
fn camera_follows_upward_and_never_down() {
    let mut bob = bob_at(0, 0, 0, 300_000);
    let mut camera: i64 = 0;
    update_bob(&mut bob, &mut camera, false, 100);
    assert!(bob.y > 0);
    assert_eq!(camera, bob.y);
    let high_water = camera;
    // Falling afterwards leaves the camera where it was.
    let mut falling = bob_at(0, high_water, 0, -400_000);
    update_bob(&mut falling, &mut camera, false, 100);
    assert!(falling.y < high_water);
    assert_eq!(camera, high_water);
}

#[test]
fn game_over_clamps_rise_and_freezes_horizontal_motion() {
    let mut bob = bob_at(10_000_000, 50_000_000, BOB_MOVE_VELOCITY, 300_000);
    let mut camera: i64 = 200_000_000;
    update_bob(&mut bob, &mut camera, true, 16);
    assert_eq!(bob.velocity_y, 0);
    assert_eq!(bob.x, 10_000_000);
    assert_eq!(bob.y, 50_000_000);
    assert_eq!(camera, 200_000_000);
}

#[test]
fn game_over_fall_stops_below_the_screen() {
    // Already one half-screen below the camera: position freezes.
    let mut bob = bob_at(0, -60_000_000, 0, -100_000);
    let mut camera: i64 = 200_000_000;
    update_bob(&mut bob, &mut camera, true, 16);
    assert_eq!(bob.y, -60_000_000);
    assert!(bob.velocity_y < -100_000);
}

#[test]
fn fall_death_needs_a_scrolled_camera() {
    // One micro-unit below the threshold with a scrolled camera: death.
    let fallen = bob_at(0, 500_000_000 - 240_000_000 - 1, 0, 0);
    assert!(check_bob_has_fallen(&fallen, 500_000_000));
    // Exactly at the threshold counts as fallen too.
    let at_line = bob_at(0, 500_000_000 - 240_000_000, 0, 0);
    assert!(check_bob_has_fallen(&at_line, 500_000_000));
    // The same relative offset with the camera still at zero: no death.
    let fresh = bob_at(0, -240_000_001, 0, 0);
    assert!(!check_bob_has_fallen(&fresh, 0));
}

#[test]
fn moving_platforms_patrol_and_turn_at_walls() {
    let platform = Platform {
        x: 127_500_000,
        y: 0,
        moving: true,
        dir: 1,
        state: PlatformState::Normal,
    };
    let static_platform = Platform {
        x: -50_000_000,
        y: 0,
        moving: false,
        dir: 1,
        state: PlatformState::Normal,
    };
    let mut platforms = vec![platform, static_platform];
    let mut squirrels: Vec<Squirrel> = Vec::new();
    move_objects(&mut platforms, &mut squirrels, 100);
    // 60 units/s for 0.1 s moves 6 units; 133.5 + 32 > 160 turns it around.
    assert_eq!(platforms[0].x, 133_500_000);
    assert_eq!(platforms[0].dir, -1);
    // A static platform does not move.
    assert_eq!(platforms[1].x, -50_000_000);
    move_objects(&mut platforms, &mut squirrels, 100);
    assert_eq!(platforms[0].x, 127_500_000);
}

#[test]
fn squirrels_patrol_and_turn_at_the_left_wall() {
    let mut squirrels = vec![Squirrel { x: -143_000_000, y: 0, dir: -1 }];
    let mut platforms: Vec<Platform> = Vec::new();
    move_objects(&mut platforms, &mut squirrels, 100);
    // -149 - 16 < -160: the squirrel turns right.
    assert_eq!(squirrels[0].x, -149_000_000);
    assert_eq!(squirrels[0].dir, 1);
}
