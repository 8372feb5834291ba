use super_jumper::level::{
    generate_level, generate_level_with, GameObject, GameObjectType, LEVEL_TOP, MAX_LEVEL_OBJECTS,
};
use super_jumper::rng::DrawSource;
use super_jumper::world::{STEP_BASE, STEP_JITTER};

fn platform_heights(objects: &[GameObject]) -> Vec<i64> {
    objects
        .iter()
        .filter(|o| matches!(o.object_type, GameObjectType::Platform(_)))
        .map(|o| o.y)
        .collect()
}

fn check_shape(objects: &[GameObject]) {
    assert!(objects.len() >= 2);
    assert!(objects.len() <= MAX_LEVEL_OBJECTS);
    for o in objects {
        assert!(!o.is_spawned);
        assert!(o.x >= 0 && o.x <= 320_000_000);
        assert!(o.y >= 0);
        if let GameObjectType::Platform(_) = o.object_type {
            assert!(o.x >= 32_000_000 && o.x <= 288_000_000);
        }
    }
    // Exactly one castle, and it stands last at the horizontal centre.
    let castles: Vec<usize> = objects
        .iter()
        .enumerate()
        .filter(|(_, o)| matches!(o.object_type, GameObjectType::Castle))
        .map(|(i, _)| i)
        .collect();
    assert_eq!(castles, vec![objects.len() - 1]);
    let castle = &objects[objects.len() - 1];
    assert_eq!(castle.x, 160_000_000);
    assert!(castle.y >= LEVEL_TOP && castle.y < LEVEL_TOP + STEP_BASE);
    // Reachability: every platform gap within jump reach, none degenerate.
    let ys = platform_heights(objects);
    assert!(!ys.is_empty());
    assert_eq!(ys[0], 8_000_000);
    for w in ys.windows(2) {
        let gap = w[1] - w[0];
        assert!(gap <= STEP_BASE, "gap {} too wide", gap);
        assert!(gap >= STEP_BASE - STEP_JITTER, "gap {} too narrow", gap);
    }
}

#[test]
fn half_draws_give_central_static_platforms_and_nothing_else() {
    let mut src = DrawSource::fixed(vec![500_000; 1000]);
    let objects = generate_level_with(&mut src);
    check_shape(&objects);
    // A half draw picks no moving platform (not above 0.8), no spring (not
    // above 0.9), no coin (not above 0.6) and no squirrel (not above 0.8):
    // every object but the castle is a static platform in the middle.
    for o in &objects[..objects.len() - 1] {
        assert!(matches!(o.object_type, GameObjectType::Platform(false)));
        assert_eq!(o.x, 160_000_000);
    }
    assert_eq!(objects[0].y, 8_000_000);
    // The advance is the base step less half the largest jitter.
    assert_eq!(objects[1].y, 8_000_000 + STEP_BASE - 27_777_777);
}

#[test]
fn zero_draws_give_leftmost_platforms_at_full_step() {
    let mut src = DrawSource::fixed(Vec::new());
    let objects = generate_level_with(&mut src);
    check_shape(&objects);
    for o in &objects[..objects.len() - 1] {
        assert!(matches!(o.object_type, GameObjectType::Platform(false)));
        assert_eq!(o.x, 32_000_000);
    }
    let ys = platform_heights(&objects);
    for w in ys.windows(2) {
        assert_eq!(w[1] - w[0], STEP_BASE);
    }
}

#[test]
fn high_draws_place_moving_platforms_coins_and_squirrels() {
    // Draws just under the range maximum take every chance that is offered.
    let mut src = DrawSource::fixed(vec![999_999; 4000]);
    let objects = generate_level_with(&mut src);
    check_shape(&objects);
    assert!(objects
        .iter()
        .any(|o| matches!(o.object_type, GameObjectType::Platform(true))));
    assert!(objects
        .iter()
        .any(|o| matches!(o.object_type, GameObjectType::Coin)));
    assert!(objects
        .iter()
        .any(|o| matches!(o.object_type, GameObjectType::Squirrel)));
    // A moving platform never gets a spring, and with every platform moving
    // there are none at all.
    assert!(!objects
        .iter()
        .any(|o| matches!(o.object_type, GameObjectType::Spring)));
}

#[test]
fn spring_draws_place_springs_on_static_platforms() {
    // Take the spring chance but not the moving chance: repeat a pattern
    // whose draws stay under the moving threshold but over the spring one.
    let pattern: Vec<u32> = vec![100_000, 300_000, 950_000, 100_000, 100_000];
    let mut draws: Vec<u32> = Vec::new();
    for _ in 0..400 {
        draws.extend_from_slice(&pattern);
    }
    let mut src = DrawSource::fixed(draws);
    let objects = generate_level_with(&mut src);
    check_shape(&objects);
    let springs: Vec<&GameObject> = objects
        .iter()
        .filter(|o| matches!(o.object_type, GameObjectType::Spring))
        .collect();
    assert!(!springs.is_empty());
    // Each spring stands exactly its lift above a platform at the same x.
    for s in springs {
        assert!(objects.iter().any(|p| matches!(
            p.object_type,
            GameObjectType::Platform(false)
        ) && p.x == s.x
            && s.y == p.y + 12_800_000));
    }
}

#[test]
fn system_source_levels_are_well_formed() {
    for _ in 0..5 {
        let objects = generate_level();
        check_shape(&objects);
    }
}
