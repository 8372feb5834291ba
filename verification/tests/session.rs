use super_jumper::entities::{Castle, Coin, Platform, PlatformState, Spring, Squirrel};
use super_jumper::highscores::HighScores;
use super_jumper::kinematics::InputIntent;
use super_jumper::level::{generate_level_with, GameObjectType};
use super_jumper::lifecycle::{cleanup_objects, spawn_objects};
use super_jumper::rng::DrawSource;
use super_jumper::session::{GameSession, PlayAction, PlayState, Points, ScreenRequest};

fn fresh_session() -> GameSession {
    GameSession::new(HighScores::default_table())
}

fn running_session() -> GameSession {
    let mut s = fresh_session();
    s.play_state = PlayState::Running;
    s
}

#[test]
fn ready_and_paused_ticks_freeze_the_world() {
    for state in [PlayState::Ready, PlayState::Paused] {
        let mut s = fresh_session();
        s.play_state = state;
        s.bob.velocity_y = 123_000;
        let ev = s.tick(InputIntent::Right, 16, 0);
        assert_eq!(s.play_state, state);
        assert_eq!(s.bob.velocity_y, 123_000);
        assert_eq!(s.points.0, 0);
        assert!(!ev.jumped && !ev.high_jumped && !ev.defeated && !ev.won);
        assert_eq!(ev.coins_collected, 0);
    }
}

#[test]
fn play_pause_resume_quit_transitions() {
    let mut s = fresh_session();
    assert_eq!(s.handle_play_action(PlayAction::Play), None);
    assert_eq!(s.play_state, PlayState::Running);
    assert_eq!(s.handle_play_action(PlayAction::Pause), None);
    assert_eq!(s.play_state, PlayState::Paused);
    assert_eq!(s.handle_play_action(PlayAction::Resume), None);
    assert_eq!(s.play_state, PlayState::Running);
    // An action that does not apply in the current state does nothing.
    assert_eq!(s.handle_play_action(PlayAction::Play), None);
    assert_eq!(s.play_state, PlayState::Running);
}

#[test]
fn quit_from_pause_submits_the_score_and_returns_to_menu() {
    let mut s = fresh_session();
    s.handle_play_action(PlayAction::Play);
    s.points = Points(60);
    s.handle_play_action(PlayAction::Pause);
    let r = s.handle_play_action(PlayAction::Quit);
    assert_eq!(r, Some(ScreenRequest::Menu));
    assert_eq!(s.play_state, PlayState::Ready);
    assert_eq!(s.high_scores.0, vec![100, 80, 60, 50, 30]);
}

#[test]
fn fall_death_fires_once_per_run() {
    let mut s = running_session();
    s.camera_y = 500_000_000;
    s.bob.y = 500_000_000 - 240_000_000 - 1;
    let ev = s.tick(InputIntent::Neither, 16, 0);
    assert!(ev.defeated && !ev.won);
    assert_eq!(s.play_state, PlayState::GameOver);
    assert!(!ev.new_record);
    // The next tick only lets the player fall out: no second death, no
    // second submission, the state stays GameOver.
    let table = s.high_scores.0.clone();
    let ev2 = s.tick(InputIntent::Neither, 16, 0);
    assert!(!ev2.defeated);
    assert_eq!(s.play_state, PlayState::GameOver);
    assert_eq!(s.high_scores.0, table);
    // Back to menu ends the run.
    assert_eq!(s.go_back_to_menu(), ScreenRequest::Menu);
    assert_eq!(s.play_state, PlayState::Ready);
}

#[test]
fn no_fall_death_before_the_camera_scrolls() {
    let mut s = running_session();
    s.camera_y = 0;
    s.bob.y = -240_000_001;
    s.bob.velocity_y = -100_000;
    let ev = s.tick(InputIntent::Neither, 16, 0);
    assert!(!ev.defeated);
    assert_eq!(s.play_state, PlayState::Running);
}

#[test]
fn squirrel_contact_ends_the_run() {
    let mut s = running_session();
    s.squirrels.push(Squirrel { x: 0, y: -208_000_000, dir: 1 });
    let ev = s.tick(InputIntent::Neither, 16, 0);
    assert!(ev.defeated);
    assert_eq!(s.play_state, PlayState::GameOver);
}

#[test]
fn castle_contact_wins_submits_and_readies_the_next_run() {
    let mut s = running_session();
    s.points = Points(42);
    s.castles.push(Castle { x: 0, y: -208_000_000 });
    let ev = s.tick(InputIntent::Neither, 16, 0);
    assert!(ev.won && !ev.defeated);
    assert!(ev.new_record);
    assert_eq!(s.play_state, PlayState::Ready);
    assert_eq!(s.high_scores.0, vec![100, 80, 50, 42, 30]);
}

#[test]
fn coins_score_once_per_instance_across_ticks() {
    let mut s = running_session();
    s.camera_y = 100_000_000;
    s.bob.y = 100_000_000;
    s.coins.push(Coin { x: 0, y: 100_000_000 });
    let ev = s.tick(InputIntent::Neither, 16, 0);
    assert_eq!(ev.coins_collected, 1);
    assert_eq!(s.points.0, 10);
    assert!(s.coins.is_empty());
    let ev2 = s.tick(InputIntent::Neither, 16, 0);
    assert_eq!(ev2.coins_collected, 0);
    assert_eq!(s.points.0, 10);
}

#[test]
fn platform_bounce_suppresses_springs_that_tick() {
    let mut s = running_session();
    s.camera_y = 100_000_000;
    s.bob.y = 100_000_000;
    s.bob.velocity_y = -10_000;
    s.platforms.push(Platform {
        x: 0,
        y: 100_000_000 - 20_000_000,
        moving: false,
        dir: 1,
        state: PlatformState::Normal,
    });
    s.springs.push(Spring { x: 0, y: 100_000_000 - 20_000_000 });
    let ev = s.tick(InputIntent::Neither, 16, 999_999);
    assert!(ev.jumped);
    assert!(!ev.high_jumped);
    assert_eq!(s.bob.velocity_y, 400_000);
    // The struck platform started pulverizing under the high draw.
    assert_eq!(s.platforms[0].state, PlatformState::Pulverizing(18));
}

#[test]
fn start_run_generates_a_level_and_reset_tears_it_down() {
    let mut s = fresh_session();
    let mut src = DrawSource::fixed(vec![500_000; 1000]);
    s.start_run(&mut src);
    assert_eq!(s.play_state, PlayState::Ready);
    assert!(s.pending.0.len() >= 2);
    assert_eq!(s.points.0, 0);
    s.reset_run();
    assert!(s.pending.0.is_empty());
    assert_eq!(s.camera_y, 0);
}

#[test]
fn live_dynamic_entities_stay_bounded_over_a_whole_level() {
    // A level full of moving platforms, coins and squirrels, simulated by
    // advancing the camera monotonically from bottom to top: the spawn and
    // despawn windows keep the live dynamic set to about a screenful,
    // however many objects the level holds in total.
    let mut draws: Vec<u32> = Vec::new();
    let mut x: u64 = 1;
    for _ in 0..8192 {
        x = (x.wrapping_mul(48271)) % 0x7FFF_FFFF;
        draws.push((x % 1_000_000) as u32);
    }
    let mut src = DrawSource::fixed(draws);
    let mut pending = generate_level_with(&mut src);
    let total = pending.len();
    assert!(total > 50);
    assert!(pending
        .iter()
        .filter(|o| matches!(o.object_type, GameObjectType::Platform(_)))
        .count() > 50);

    let mut platforms: Vec<Platform> = Vec::new();
    let mut coins: Vec<Coin> = Vec::new();
    let mut springs: Vec<Spring> = Vec::new();
    let mut squirrels: Vec<Squirrel> = Vec::new();
    let mut castles: Vec<Castle> = Vec::new();

    let mut camera: i64 = 0;
    let top: i64 = 9_700_000_000;
    while camera <= top {
        spawn_objects(
            &mut pending,
            &mut platforms,
            &mut coins,
            &mut springs,
            &mut squirrels,
            &mut castles,
            camera,
        );
        cleanup_objects(&mut pending, &mut platforms, &mut coins, camera);
        // Live window: at most a screenful of platforms is within it, and
        // each platform carries at most one coin.
        let moving = platforms.iter().filter(|p| p.moving).count();
        let live_dynamic = moving + coins.len();
        assert!(
            live_dynamic <= 14,
            "{} live dynamic entities at camera {}",
            live_dynamic,
            camera
        );
        camera += 48_000_000;
    }
}
