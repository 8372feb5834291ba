//! Procedural level generation: an ordered list of world-object descriptors
//! climbing from the bottom of the shaft to the castle at the top, every
//! vertical platform gap within the player's jump reach.

use vstd::prelude::*;
use crate::rng::DrawSource;
use crate::world::{
    COIN_RISE, DRAW_RANGE, PLATFORM_HEIGHT, PLATFORM_WIDTH, SQUIRREL_HEIGHT, STEP_BASE,
    STEP_JITTER, WORLD_HEIGHT, WORLD_WIDTH,
};

verus! {

/// Generation stops once the next platform would stand this high.
pub const LEVEL_TOP: i64 = 9_440_000_000;

/// Squirrels appear only above a third of the world height.
pub const WORLD_THIRD: i64 = 3_200_000_000;

/// No generated level holds more objects than this.
pub const MAX_LEVEL_OBJECTS: usize = 512;

/// Smallest vertical advance from one platform to the next.
pub const MIN_ADVANCE: i64 = 95_111_111;

/// A platform is a moving one when its draw exceeds this (a 20% chance).
pub const MOVING_THRESHOLD: u32 = 800_000;

/// A static platform gets a spring when its draw exceeds this (10%).
pub const SPRING_THRESHOLD: u32 = 900_000;

/// A platform gets a coin above it when its draw exceeds this (40%).
pub const COIN_THRESHOLD: u32 = 600_000;

/// A platform high enough gets a squirrel when its draw exceeds this (20%).
pub const SQUIRREL_THRESHOLD: u32 = 800_000;

/// A spring stands half a platform plus half a spring above its platform.
pub const SPRING_LIFT: i64 = 12_800_000;

/// Micro-units of platform x-span per draw unit:
/// (WORLD_WIDTH - PLATFORM_WIDTH) / DRAW_RANGE.
pub const PLATFORM_X_STEP: i64 = 256;

/// Micro-units of horizontal jitter per draw unit: JITTER_X / DRAW_RANGE.
pub const JITTER_X_STEP: i64 = 32;

/// Micro-units of coin vertical jitter per draw unit.
pub const COIN_Y_STEP: i64 = 96;

/// Micro-units of squirrel vertical jitter per draw unit.
pub const SQUIRREL_Y_STEP: i64 = 64;

/// Horizontal jitter of coins and squirrels: up to one tile.
pub const JITTER_X: i64 = 32_000_000;

/// Vertical jitter of a coin above its rise: up to three tiles.
pub const COIN_JITTER_Y: i64 = 96_000_000;

/// Vertical jitter of a squirrel above its height: up to two tiles.
pub const SQUIRREL_JITTER_Y: i64 = 64_000_000;

/// The kinds of world object a level is made of.
#[derive(Clone, Copy, PartialEq, Eq, Structural)]
pub enum GameObjectType {
    /// A platform; the flag says whether it patrols horizontally.
    Platform(bool),
    Squirrel,
    Coin,
    Spring,
    Castle,
}

/// One pending world-object descriptor, in generated coordinates: x in
/// [0, WORLD_WIDTH], y climbing from 0. It is spawned into the live world
/// once the camera approaches it.
#[derive(Clone, Copy)]
pub struct GameObject {
    pub object_type: GameObjectType,
    pub x: i64,
    pub y: i64,
    pub is_spawned: bool,
}

/// The y coordinates of the platforms of `s`, in order.
pub open spec fn plat_ys(s: Seq<GameObject>) -> Seq<int>
    decreases s.len(),
{
    if s.len() == 0 {
        Seq::empty()
    } else {
        let rest = plat_ys(s.drop_last());
        if s.last().object_type is Platform {
            rest.push(s.last().y as int)
        } else {
            rest
        }
    }
}

pub proof fn lemma_plat_ys_push(s: Seq<GameObject>, o: GameObject)
    ensures
        plat_ys(s.push(o)) == if o.object_type is Platform {
            plat_ys(s).push(o.y as int)
        } else {
            plat_ys(s)
        },
{
    assert(s.push(o).drop_last() =~= s);
    assert(s.push(o).last() == o);
}

/// Every consecutive pair of platforms is separated by at least the base
/// advance less the largest jitter, and by at most the base advance: each
/// gap is within jump reach, and none is degenerate.
pub open spec fn gaps_ok(ys: Seq<int>) -> bool {
    forall|k: int|
        1 <= k < ys.len() ==> STEP_BASE - STEP_JITTER <= #[trigger] ys[k] - ys[k - 1] <= STEP_BASE
}

/// A spring sits exactly a lift above the static platform it immediately
/// follows in the list.
pub open spec fn spring_after_platform(s: Seq<GameObject>, i: int) -> bool {
    &&& 1 <= i
    &&& s[i - 1].object_type matches GameObjectType::Platform(m) && !m
    &&& s[i - 1].x == s[i].x
    &&& s[i].y == s[i - 1].y + SPRING_LIFT
}

/// A coin hovers jittered above the platform at index `j`.
pub open spec fn coin_on(s: Seq<GameObject>, i: int, j: int) -> bool {
    &&& 0 <= j < i
    &&& s[j].object_type is Platform
    &&& s[j].x <= s[i].x < s[j].x + JITTER_X
    &&& s[j].y + COIN_RISE <= s[i].y < s[j].y + COIN_RISE + COIN_JITTER_Y
}

/// A squirrel roams jittered above the high-enough platform at index `j`.
pub open spec fn squirrel_on(s: Seq<GameObject>, i: int, j: int) -> bool {
    &&& 0 <= j < i
    &&& s[j].object_type is Platform
    &&& s[j].y > WORLD_THIRD
    &&& s[j].x <= s[i].x < s[j].x + JITTER_X
    &&& s[j].y + SQUIRREL_HEIGHT <= s[i].y < s[j].y + SQUIRREL_HEIGHT + SQUIRREL_JITTER_Y
}

/// Each non-platform object stands where the generator places it, relative
/// to a platform earlier in the list.
pub open spec fn placement_ok(s: Seq<GameObject>, i: int) -> bool {
    &&& (s[i].object_type is Spring ==> spring_after_platform(s, i))
    &&& (s[i].object_type is Coin ==> exists|j: int| coin_on(s, i, j))
    &&& (s[i].object_type is Squirrel ==> exists|j: int| squirrel_on(s, i, j))
}

/// A fresh descriptor: not yet spawned, inside the world, and a platform
/// never overhangs a wall.
pub open spec fn pending_object_ok(o: GameObject) -> bool {
    &&& !o.is_spawned
    &&& 0 <= o.x <= WORLD_WIDTH
    &&& 0 <= o.y < WORLD_HEIGHT
    &&& o.object_type is Platform ==> PLATFORM_WIDTH / 2 <= o.x <= WORLD_WIDTH - PLATFORM_WIDTH / 2
}

/// A well-formed generated level: bounded, nothing spawned yet, every
/// platform within the walls, the first platform at half a platform's
/// height, every gap reachable, exactly one castle and it stands last at the
/// horizontal centre above the level top, and springs, coins and squirrels
/// placed relative to their platforms.
pub open spec fn level_wf(s: Seq<GameObject>) -> bool {
    &&& 2 <= s.len() <= MAX_LEVEL_OBJECTS
    &&& forall|i: int| 0 <= i < s.len() ==> pending_object_ok(#[trigger] s[i])
    &&& forall|i: int| 0 <= i < s.len() - 1 ==> !((#[trigger] s[i]).object_type is Castle)
    &&& s.last().object_type is Castle
    &&& s.last().x == WORLD_WIDTH / 2
    &&& LEVEL_TOP <= s.last().y < LEVEL_TOP + STEP_BASE
    &&& forall|i: int|
        0 <= i < s.len() && (#[trigger] s[i]).object_type is Platform ==> s[i].y < LEVEL_TOP
    &&& plat_ys(s).len() >= 1
    &&& plat_ys(s)[0] == PLATFORM_HEIGHT / 2
    &&& STEP_BASE - STEP_JITTER <= s.last().y - plat_ys(s).last() <= STEP_BASE
    &&& gaps_ok(plat_ys(s))
    &&& forall|i: int| 0 <= i < s.len() ==> placement_ok(s, i)
}


/// The fraction a fixed source yields at position `k` of its recorded
/// draws: the value reduced into the draw range, or zero past the end.
pub open spec fn frac_at(draws: Seq<u32>, k: int) -> int {
    if 0 <= k < draws.len() {
        (draws[k] % DRAW_RANGE) as int
    } else {
        0
    }
}

/// An index into the recorded draws as a fixed source holds it: the list
/// never advances past its own end.
pub open spec fn capped_index(k: int, len: int) -> int {
    if k <= len {
        k
    } else {
        len
    }
}

/// One generation step read off the recorded draws from position `k`, with
/// its platform at height `y`: the objects the step emits, the number of
/// draws it consumes, and the height of the next step.
pub open spec fn step_from(draws: Seq<u32>, k: int, y: int) -> (Seq<GameObject>, int, int) {
    let moving = frac_at(draws, k) > MOVING_THRESHOLD;
    let x = PLATFORM_WIDTH / 2 + frac_at(draws, k + 1) * PLATFORM_X_STEP;
    let platform = GameObject {
        object_type: GameObjectType::Platform(moving),
        x: x as i64,
        y: y as i64,
        is_spawned: false,
    };
    let springs: Seq<GameObject> = if frac_at(draws, k + 2) > SPRING_THRESHOLD && !moving {
        seq![
            GameObject {
                object_type: GameObjectType::Spring,
                x: x as i64,
                y: (y + SPRING_LIFT) as i64,
                is_spawned: false,
            },
        ]
    } else {
        Seq::empty()
    };
    let coin_placed = frac_at(draws, k + 3) > COIN_THRESHOLD;
    let coins: Seq<GameObject> = if coin_placed {
        seq![
            GameObject {
                object_type: GameObjectType::Coin,
                x: (x + frac_at(draws, k + 4) * JITTER_X_STEP) as i64,
                y: (y + COIN_RISE + frac_at(draws, k + 5) * COIN_Y_STEP) as i64,
                is_spawned: false,
            },
        ]
    } else {
        Seq::empty()
    };
    let k2: int = if coin_placed {
        k + 6
    } else {
        k + 4
    };
    let squirrel_placed = y > WORLD_THIRD && frac_at(draws, k2) > SQUIRREL_THRESHOLD;
    let squirrels: Seq<GameObject> = if squirrel_placed {
        seq![
            GameObject {
                object_type: GameObjectType::Squirrel,
                x: (x + frac_at(draws, k2 + 1) * JITTER_X_STEP) as i64,
                y: (y + SQUIRREL_HEIGHT + frac_at(draws, k2 + 2) * SQUIRREL_Y_STEP) as i64,
                is_spawned: false,
            },
        ]
    } else {
        Seq::empty()
    };
    let k3: int = if y > WORLD_THIRD {
        if squirrel_placed {
            k2 + 3
        } else {
            k2 + 1
        }
    } else {
        k2
    };
    let jitter = frac_at(draws, k3) * STEP_JITTER / (DRAW_RANGE as int);
    (seq![platform] + springs + coins + squirrels, k3 + 1 - k, y + STEP_BASE - jitter)
}

/// Each step climbs: its advance lies between the base step less the
/// largest jitter and the base step itself.
pub proof fn lemma_step_advance(draws: Seq<u32>, k: int, y: int)
    ensures
        y + STEP_BASE - STEP_JITTER <= step_from(draws, k, y).2 <= y + STEP_BASE,
{
    let coin_placed = frac_at(draws, k + 3) > COIN_THRESHOLD;
    let k2: int = if coin_placed {
        k + 6
    } else {
        k + 4
    };
    let squirrel_placed = y > WORLD_THIRD && frac_at(draws, k2) > SQUIRREL_THRESHOLD;
    let k3: int = if y > WORLD_THIRD {
        if squirrel_placed {
            k2 + 3
        } else {
            k2 + 1
        }
    } else {
        k2
    };
    assert(0 <= frac_at(draws, k3) <= 999_999);
    assert(0 <= frac_at(draws, k3) * STEP_JITTER <= 999_999 * 55_555_555);
    assert(0 <= frac_at(draws, k3) * STEP_JITTER / (DRAW_RANGE as int) <= STEP_JITTER);
}

/// The scenario a middle-of-the-range source produces, read off the
/// contract: every draw at half the range picks no moving platform (not
/// above the 80% mark), no spring (not above 90%), no coin (not above 60%)
/// and no squirrel, so the level opens with two static platforms at the
/// horizontal centre — the first at half a platform's height, the second
/// one half-jittered step up — and nothing stands between them.
pub proof fn lemma_half_draw_start(draws: Seq<u32>)
    requires
        draws.len() >= 10,
        forall|i: int| 0 <= i < draws.len() ==> #[trigger] draws[i] == 500_000,
    ensures
        level_from(draws, 0, (PLATFORM_HEIGHT / 2) as int).len() >= 2,
        level_from(draws, 0, (PLATFORM_HEIGHT / 2) as int)[0] == (GameObject {
            object_type: GameObjectType::Platform(false),
            x: 160_000_000i64,
            y: 8_000_000i64,
            is_spawned: false,
        }),
        level_from(draws, 0, (PLATFORM_HEIGHT / 2) as int)[1] == (GameObject {
            object_type: GameObjectType::Platform(false),
            x: 160_000_000i64,
            y: 130_888_889i64,
            is_spawned: false,
        }),
{
    let y0: int = (PLATFORM_HEIGHT / 2) as int;
    assert forall|i: int| 0 <= i < 10 implies frac_at(draws, i) == 500_000 by {
        assert(draws[i] == 500_000);
    }
    let p0 = GameObject {
        object_type: GameObjectType::Platform(false),
        x: 160_000_000i64,
        y: 8_000_000i64,
        is_spawned: false,
    };
    let step0 = step_from(draws, 0, y0);
    assert(500_000 * PLATFORM_X_STEP == 128_000_000);
    assert(500_000 * STEP_JITTER / (DRAW_RANGE as int) == 27_777_777);
    assert(step0.0 =~= seq![p0]);
    assert(step0.1 == 5);
    assert(step0.2 == 130_888_889);
    assert(level_from(draws, 0, y0) == step0.0 + level_from(draws, 5, 130_888_889));
    let p1 = GameObject {
        object_type: GameObjectType::Platform(false),
        x: 160_000_000i64,
        y: 130_888_889i64,
        is_spawned: false,
    };
    let step1 = step_from(draws, 5, 130_888_889);
    assert(step1.0 =~= seq![p1]);
    assert(level_from(draws, 5, 130_888_889) == step1.0 + level_from(draws, 10, step1.2));
    assert(level_from(draws, 0, y0)[0] == p0);
    assert(level_from(draws, 0, y0)[1] == p1);
}

/// How far the generator still has to climb at height `y`.
pub open spec fn level_gap(y: int) -> int {
    if y < LEVEL_TOP {
        LEVEL_TOP - y
    } else {
        0
    }
}

/// The whole level read off the recorded draws from position `k`: steps
/// climb from `y` until the level top, then the castle stands at the final
/// height. With a fixed draw source the generator returns exactly this.
pub open spec fn level_from(draws: Seq<u32>, k: int, y: int) -> Seq<GameObject>
    decreases level_gap(y),
    via level_from_decreases
{
    if y >= LEVEL_TOP {
        seq![
            GameObject {
                object_type: GameObjectType::Castle,
                x: (WORLD_WIDTH / 2) as i64,
                y: y as i64,
                is_spawned: false,
            },
        ]
    } else {
        let step = step_from(draws, k, y);
        step.0 + level_from(draws, k + step.1, step.2)
    }
}

#[via_fn]
proof fn level_from_decreases(draws: Seq<u32>, k: int, y: int) {
    if y < LEVEL_TOP {
        lemma_step_advance(draws, k, y);
    }
}

/// Draws one fraction, tracking the position in a fixed source's recorded
/// draws so that the value can be read off `frac_at`.
fn take_draw(src: &mut DrawSource, Ghost(k): Ghost<int>) -> (r: u32)
    requires
        old(src).wf(),
        !old(src).system ==> 0 <= k && old(src).next as int == capped_index(
            k,
            old(src).draws@.len() as int,
        ),
    ensures
        final(src).wf(),
        r < DRAW_RANGE,
        final(src).system == old(src).system,
        final(src).draws == old(src).draws,
        !old(src).system ==> r == frac_at(old(src).draws@, k) && final(src).next
            as int == capped_index(k + 1, old(src).draws@.len() as int),
{
    let r = src.next_draw();
    proof {
        if !old(src).system {
            let d = old(src).draws@;
            let len = d.len() as int;
            if old(src).next < old(src).draws.len() {
                assert(k == old(src).next as int);
                assert(d[k] < DRAW_RANGE);
                assert(d[k] % DRAW_RANGE == d[k]);
            } else {
                assert(k >= len);
            }
        }
    }
    r
}

/// One generation step: draws the step's fractions, appends its platform
/// and whatever follows it, and returns the height of the next step. With a
/// fixed source the step is exactly `step_from` at position `k`.
#[verifier::rlimit(100)]
fn generate_step(
    src: &mut DrawSource,
    objects: &mut Vec<GameObject>,
    y: i64,
    Ghost(k): Ghost<int>,
) -> (y2: i64)
    requires
        old(src).wf(),
        !old(src).system ==> 0 <= k && old(src).next as int == capped_index(
            k,
            old(src).draws@.len() as int,
        ),
        PLATFORM_HEIGHT / 2 <= y < LEVEL_TOP,
        forall|i: int|
            0 <= i < old(objects)@.len() ==> pending_object_ok(#[trigger] old(objects)@[i]),
        forall|i: int|
            0 <= i < old(objects)@.len() ==> !((#[trigger] old(objects)@[i]).object_type is Castle),
        forall|i: int|
            0 <= i < old(objects)@.len() && (#[trigger] old(objects)@[i]).object_type is Platform
                ==> old(objects)@[i].y < LEVEL_TOP,
        forall|i: int| 0 <= i < old(objects)@.len() ==> placement_ok(old(objects)@, i),
    ensures
        final(src).wf(),
        final(src).system == old(src).system,
        final(src).draws == old(src).draws,
        y + STEP_BASE - STEP_JITTER <= y2 <= y + STEP_BASE,
        old(objects)@.len() < final(objects)@.len() <= old(objects)@.len() + 4,
        plat_ys(final(objects)@) == plat_ys(old(objects)@).push(y as int),
        forall|i: int|
            0 <= i < final(objects)@.len() ==> pending_object_ok(#[trigger] final(objects)@[i]),
        forall|i: int|
            0 <= i < final(objects)@.len() ==> !((#[trigger] final(objects)@[i]).object_type
                is Castle),
        forall|i: int|
            0 <= i < final(objects)@.len() && (#[trigger] final(objects)@[i]).object_type
                is Platform ==> final(objects)@[i].y < LEVEL_TOP,
        forall|i: int| 0 <= i < final(objects)@.len() ==> placement_ok(final(objects)@, i),
        !old(src).system ==> {
            &&& final(objects)@ == old(objects)@ + step_from(old(src).draws@, k, y as int).0
            &&& final(src).next as int == capped_index(
                k + step_from(old(src).draws@, k, y as int).1,
                old(src).draws@.len() as int,
            )
            &&& y2 as int == step_from(old(src).draws@, k, y as int).2
        },
{
    let ghost entry_objects = objects@;
    let ghost mut model_k: int = k;
    let moving_draw = take_draw(src, Ghost(model_k));
    proof {
        model_k = model_k + 1;
    }
    let moving = moving_draw > MOVING_THRESHOLD;
    let x_draw = take_draw(src, Ghost(model_k));
    proof {
        model_k = model_k + 1;
    }
    let x: i64 = PLATFORM_WIDTH / 2 + (x_draw as i64) * PLATFORM_X_STEP;
    let ghost before_platform = objects@;
    objects.push(GameObject { object_type: GameObjectType::Platform(moving), x, y, is_spawned: false });
    proof {
        lemma_plat_ys_push(before_platform, objects@.last());
        assert forall|i: int| 0 <= i < objects@.len() implies placement_ok(objects@, i) by {
            if i < before_platform.len() {
                lemma_placement_push(before_platform, objects@.last(), i);
            }
        }
    }
    let ghost plat_index = objects@.len() - 1;

    let spring_draw = take_draw(src, Ghost(model_k));
    proof {
        model_k = model_k + 1;
    }
    if spring_draw > SPRING_THRESHOLD && !moving {
        let ghost before = objects@;
        objects.push(
            GameObject {
                object_type: GameObjectType::Spring,
                x,
                y: y + SPRING_LIFT,
                is_spawned: false,
            },
        );
        proof {
            lemma_plat_ys_push(before, objects@.last());
            assert forall|i: int| 0 <= i < objects@.len() implies placement_ok(objects@, i) by {
                if i < before.len() {
                    lemma_placement_push(before, objects@.last(), i);
                } else {
                    assert(plat_index == i - 1);
                    assert(spring_after_platform(objects@, i));
                }
            }
        }
    }

    let coin_draw = take_draw(src, Ghost(model_k));
    proof {
        model_k = model_k + 1;
    }
    if coin_draw > COIN_THRESHOLD {
        let dx_draw = take_draw(src, Ghost(model_k));
        proof {
            model_k = model_k + 1;
        }
        let dy_draw = take_draw(src, Ghost(model_k));
        proof {
            model_k = model_k + 1;
        }
        let cx: i64 = x + (dx_draw as i64) * JITTER_X_STEP;
        let cy: i64 = y + COIN_RISE + (dy_draw as i64) * COIN_Y_STEP;
        let ghost before = objects@;
        objects.push(
            GameObject { object_type: GameObjectType::Coin, x: cx, y: cy, is_spawned: false },
        );
        proof {
            lemma_plat_ys_push(before, objects@.last());
            assert forall|i: int| 0 <= i < objects@.len() implies placement_ok(objects@, i) by {
                if i < before.len() {
                    lemma_placement_push(before, objects@.last(), i);
                } else {
                    assert(coin_on(objects@, i, plat_index));
                }
            }
        }
    }

    if y > WORLD_THIRD {
        let squirrel_draw = take_draw(src, Ghost(model_k));
        proof {
            model_k = model_k + 1;
        }
        if squirrel_draw > SQUIRREL_THRESHOLD {
            let dx_draw = take_draw(src, Ghost(model_k));
            proof {
                model_k = model_k + 1;
            }
            let dy_draw = take_draw(src, Ghost(model_k));
            proof {
                model_k = model_k + 1;
            }
            let sx: i64 = x + (dx_draw as i64) * JITTER_X_STEP;
            let sy: i64 = y + SQUIRREL_HEIGHT + (dy_draw as i64) * SQUIRREL_Y_STEP;
            let ghost before = objects@;
            objects.push(
                GameObject {
                    object_type: GameObjectType::Squirrel,
                    x: sx,
                    y: sy,
                    is_spawned: false,
                },
            );
            proof {
                lemma_plat_ys_push(before, objects@.last());
                assert forall|i: int| 0 <= i < objects@.len() implies placement_ok(
                    objects@,
                    i,
                ) by {
                    if i < before.len() {
                        lemma_placement_push(before, objects@.last(), i);
                    } else {
                        assert(squirrel_on(objects@, i, plat_index));
                    }
                }
            }
        }
    }

    let jitter_draw = take_draw(src, Ghost(model_k));
    proof {
        model_k = model_k + 1;
    }
    let jitter: i64 = (jitter_draw as i64) * STEP_JITTER / (DRAW_RANGE as i64);
    proof {
        assert(0 <= (jitter_draw as int) * (STEP_JITTER as int) <= 999_999 * 55_555_555);
        assert(0 <= jitter <= STEP_JITTER);
    }
    let y2: i64 = y + STEP_BASE - jitter;
    proof {
        if !old(src).system {
            let d = old(src).draws@;
            let step = step_from(d, k, y as int);
            assert(model_k == k + step.1);
            assert(y2 as int == step.2);
            assert(objects@ =~= entry_objects + step.0);
        }
    }
    y2
}

/// Generates one level from the given draw source. The result is
/// well-formed whatever the source returned; a fixed source determines it
/// entirely: the output is `level_from` of the recorded draws.
#[verifier::rlimit(100)]
pub fn generate_level_with(src: &mut DrawSource) -> (objects: Vec<GameObject>)
    requires
        old(src).wf(),
    ensures
        final(src).wf(),
        final(src).system == old(src).system,
        final(src).draws == old(src).draws,
        level_wf(objects@),
        !old(src).system ==> objects@ == level_from(
            old(src).draws@,
            old(src).next as int,
            (PLATFORM_HEIGHT / 2) as int,
        ),
{
    let mut objects: Vec<GameObject> = Vec::new();
    let mut y: i64 = PLATFORM_HEIGHT / 2;
    let ghost mut steps: int = 0;
    let ghost k0: int = old(src).next as int;
    let ghost mut model_k: int = k0;
    while y < LEVEL_TOP
        invariant
            src.wf(),
            src.system == old(src).system,
            src.draws == old(src).draws,
            k0 == old(src).next as int,
            k0 <= model_k,
            !old(src).system ==> src.next as int == capped_index(
                model_k,
                old(src).draws@.len() as int,
            ),
            !old(src).system ==> level_from(old(src).draws@, k0, (PLATFORM_HEIGHT / 2) as int)
                == objects@ + level_from(old(src).draws@, model_k, y as int),
            0 <= steps,
            PLATFORM_HEIGHT / 2 <= y < LEVEL_TOP + STEP_BASE,
            y >= PLATFORM_HEIGHT / 2 + steps * MIN_ADVANCE,
            objects@.len() <= 4 * steps,
            plat_ys(objects@).len() == steps,
            steps == 0 ==> y == PLATFORM_HEIGHT / 2 && objects@.len() == 0,
            steps >= 1 ==> plat_ys(objects@)[0] == PLATFORM_HEIGHT / 2,
            steps >= 1 ==> STEP_BASE - STEP_JITTER <= y - plat_ys(objects@).last() <= STEP_BASE,
            gaps_ok(plat_ys(objects@)),
            forall|i: int| 0 <= i < objects@.len() ==> pending_object_ok(#[trigger] objects@[i]),
            forall|i: int|
                0 <= i < objects@.len() && (#[trigger] objects@[i]).object_type is Platform
                    ==> objects@[i].y < LEVEL_TOP,
            forall|i: int|
                0 <= i < objects@.len() ==> !((#[trigger] objects@[i]).object_type is Castle),
            steps <= 100,
            forall|i: int| 0 <= i < objects@.len() ==> placement_ok(objects@, i),
        decreases 100 - steps,
    {
        proof {
            assert(steps <= 99) by {
                if steps >= 100 {
                    assert(y >= PLATFORM_HEIGHT / 2 + 100 * MIN_ADVANCE);
                }
            }
        }
        let ghost k_entry = model_k;
        let ghost y_entry = y;
        let ghost entry_ys = plat_ys(objects@);
        let y2 = generate_step(src, &mut objects, y, Ghost(model_k));
        proof {
            steps = steps + 1;
            let d = old(src).draws@;
            let step = step_from(d, k_entry, y_entry as int);
            assert(step.1 >= 5);
            model_k = k_entry + step.1;
            if !old(src).system {
                assert(level_from(d, k_entry, y_entry as int) == step.0 + level_from(
                    d,
                    model_k,
                    y2 as int,
                ));
                assert(level_from(d, k0, (PLATFORM_HEIGHT / 2) as int) =~= objects@ + level_from(
                    d,
                    model_k,
                    y2 as int,
                ));
            }
            assert(plat_ys(objects@) == entry_ys.push(y_entry as int));
            assert(gaps_ok(plat_ys(objects@))) by {
                assert forall|j: int|
                    1 <= j < plat_ys(objects@).len() implies STEP_BASE - STEP_JITTER <= #[trigger] plat_ys(
                    objects@,
                )[j] - plat_ys(objects@)[j - 1] <= STEP_BASE by {
                    if j < entry_ys.len() {
                        assert(plat_ys(objects@)[j] == entry_ys[j]);
                        assert(plat_ys(objects@)[j - 1] == entry_ys[j - 1]);
                    } else {
                        assert(plat_ys(objects@)[j] == y_entry as int);
                        assert(plat_ys(objects@)[j - 1] == entry_ys.last());
                    }
                }
            }
        }
        y = y2;
    }

    let ghost before_castle = objects@;
    let ghost before_castle_y = y;
    objects.push(
        GameObject {
            object_type: GameObjectType::Castle,
            x: WORLD_WIDTH / 2,
            y,
            is_spawned: false,
        },
    );
    proof {
        lemma_plat_ys_push(before_castle, objects@.last());
        assert forall|i: int| 0 <= i < objects@.len() implies placement_ok(objects@, i) by {
            if i < before_castle.len() {
                lemma_placement_push(before_castle, objects@.last(), i);
            }
        }
        if !old(src).system {
            let d = old(src).draws@;
            assert(level_from(d, model_k, before_castle_y as int) =~= seq![objects@.last()]);
            assert(objects@ =~= level_from(d, k0, (PLATFORM_HEIGHT / 2) as int));
        }
        // The loop ran at least once, and no more than a hundred times.
        assert(steps >= 1);
        assert(steps <= 100) by {
            if steps > 100 {
                assert(y >= PLATFORM_HEIGHT / 2 + 101 * MIN_ADVANCE);
            }
        }
        assert(objects@.len() <= 4 * steps + 1);
    }
    objects
}

/// An object appended after `s` disturbs no earlier placement.
proof fn lemma_placement_push(s: Seq<GameObject>, o: GameObject, i: int)
    requires
        0 <= i < s.len(),
        placement_ok(s, i),
    ensures
        placement_ok(s.push(o), i),
{
    let t = s.push(o);
    assert(t[i] == s[i]);
    if s[i].object_type is Spring {
        assert(t[i - 1] == s[i - 1]);
        assert(spring_after_platform(t, i));
    }
    if s[i].object_type is Coin {
        let j = choose|j: int| coin_on(s, i, j);
        assert(t[j] == s[j]);
        assert(coin_on(t, i, j));
    }
    if s[i].object_type is Squirrel {
        let j = choose|j: int| squirrel_on(s, i, j);
        assert(t[j] == s[j]);
        assert(squirrel_on(t, i, j));
    }
}

/// How many of the heights lie within the window [lo, hi].
pub open spec fn count_in_window(ys: Seq<int>, lo: int, hi: int) -> int
    decreases ys.len(),
{
    if ys.len() == 0 {
        0
    } else {
        count_in_window(ys.drop_last(), lo, hi) + if lo <= ys.last() <= hi {
            1int
        } else {
            0int
        }
    }
}

/// Heights spaced at least `d` apart drift apart linearly with the index.
pub proof fn lemma_spaced_apart(ys: Seq<int>, d: int, i: int, j: int)
    requires
        d > 0,
        forall|k: int| 1 <= k < ys.len() ==> #[trigger] ys[k] - ys[k - 1] >= d,
        0 <= i <= j < ys.len(),
    ensures
        ys[j] - ys[i] >= (j - i) * d,
    decreases j - i,
{
    if j > i {
        lemma_spaced_apart(ys, d, i, j - 1);
        assert(ys[j] - ys[j - 1] >= d);
        assert((j - i) * d == (j - 1 - i) * d + d) by (nonlinear_arith);
    } else {
        assert((j - i) * d == 0) by (nonlinear_arith)
            requires
                j == i,
        ;
    }
}

proof fn lemma_count_clip(ys: Seq<int>, lo: int, hi: int, cap: int)
    requires
        forall|i: int| 0 <= i < ys.len() ==> #[trigger] ys[i] <= cap,
        lo <= cap <= hi,
    ensures
        count_in_window(ys, lo, hi) == count_in_window(ys, lo, cap),
    decreases ys.len(),
{
    if ys.len() > 0 {
        assert(forall|i: int|
            0 <= i < ys.drop_last().len() ==> #[trigger] ys.drop_last()[i] <= cap);
        lemma_count_clip(ys.drop_last(), lo, hi, cap);
    }
}

proof fn lemma_count_none(ys: Seq<int>, lo: int, hi: int)
    requires
        forall|i: int| 0 <= i < ys.len() ==> #[trigger] ys[i] < lo,
    ensures
        count_in_window(ys, lo, hi) == 0,
    decreases ys.len(),
{
    if ys.len() > 0 {
        assert(forall|i: int|
            0 <= i < ys.drop_last().len() ==> #[trigger] ys.drop_last()[i] < lo);
        lemma_count_none(ys.drop_last(), lo, hi);
    }
}

/// The lifecycle bound: heights spaced at least `d` apart admit at most
/// (hi - lo) / d + 1 entries in any window [lo, hi] — stated without
/// division as d * (count - 1) <= hi - lo. Applied to a level's platforms
/// this caps the simultaneously live objects to about a screenful, however
/// long the level is.
pub proof fn lemma_spaced_window_count(ys: Seq<int>, d: int, lo: int, hi: int)
    requires
        d > 0,
        lo <= hi,
        forall|k: int| 1 <= k < ys.len() ==> #[trigger] ys[k] - ys[k - 1] >= d,
    ensures
        d * (count_in_window(ys, lo, hi) - 1) <= hi - lo,
    decreases ys.len(),
{
    let c = count_in_window(ys, lo, hi);
    if ys.len() == 0 {
        assert(d * (0 - 1) <= 0) by (nonlinear_arith)
            requires
                d > 0,
        ;
    } else {
        let dl = ys.drop_last();
        let last = ys.last();
        assert(forall|k: int| 1 <= k < dl.len() ==> #[trigger] dl[k] - dl[k - 1] >= d);
        if last < lo || last > hi {
            lemma_spaced_window_count(dl, d, lo, hi);
        } else {
            if ys.len() == 1 {
                assert(dl.len() == 0);
                assert(count_in_window(dl, lo, hi) == 0);
                assert(c == 1);
                assert(d * (1 - 1) == 0) by (nonlinear_arith);
            } else {
                assert forall|i: int| 0 <= i < dl.len() implies #[trigger] dl[i] <= last - d by {
                    lemma_spaced_apart(ys, d, i, ys.len() - 1);
                    assert((ys.len() - 1 - i) * d >= 1 * d) by (nonlinear_arith)
                        requires
                            d > 0,
                            ys.len() - 1 - i >= 1,
                    ;
                }
                if last - d >= lo {
                    lemma_count_clip(dl, lo, hi, last - d);
                    lemma_spaced_window_count(dl, d, lo, last - d);
                    let cdl = count_in_window(dl, lo, hi);
                    assert(c == cdl + 1);
                    assert(d * (cdl - 1) <= last - d - lo);
                    assert(d * (c - 1) == d * (cdl - 1) + d) by (nonlinear_arith)
                        requires
                            c == cdl + 1,
                    ;
                } else {
                    assert(forall|i: int| 0 <= i < dl.len() ==> #[trigger] dl[i] < lo);
                    lemma_count_none(dl, lo, hi);
                    assert(c == 1);
                    assert(d * (1 - 1) == 0) by (nonlinear_arith);
                }
            }
        }
    }
}

/// A generated level keeps its platform heights spaced, so any vertical
/// window — in particular the spawn-to-despawn window around the camera —
/// holds a bounded number of its platforms.
pub proof fn lemma_level_platform_window(s: Seq<GameObject>, lo: int, hi: int)
    requires
        level_wf(s),
        lo <= hi,
    ensures
        (STEP_BASE - STEP_JITTER) * (count_in_window(plat_ys(s), lo, hi) - 1) <= hi - lo,
{
    assert forall|k: int| 1 <= k < plat_ys(s).len() implies #[trigger] plat_ys(s)[k] - plat_ys(
        s,
    )[k - 1] >= STEP_BASE - STEP_JITTER by {
        assert(STEP_BASE - STEP_JITTER <= plat_ys(s)[k] - plat_ys(s)[k - 1]);
    }
    lemma_spaced_window_count(plat_ys(s), STEP_BASE - STEP_JITTER, lo, hi);
}

/// Generates one level from the process's own random source.
pub fn generate_level() -> (objects: Vec<GameObject>)
    ensures
        level_wf(objects@),
{
    let mut src = DrawSource::system();
    generate_level_with(&mut src)
}

} // verus!
