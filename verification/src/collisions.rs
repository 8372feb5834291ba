//! The per-tick collision rules: platform bounce (with a chance of
//! pulverizing the platform), spring boost, coin collection, squirrel
//! defeat, castle win, and the pulverize countdown that removes a destroyed
//! platform. All tests are strict AABB overlaps; scans run in live-entity
//! insertion order and the first hit wins where only one may fire.

use vstd::prelude::*;
use crate::entities::{Bob, Castle, Coin, Platform, PlatformState, Spring, Squirrel, PULVERIZE_TICKS};
use crate::world::{
    collide, overlaps, BOB_HEIGHT, BOB_JUMP_VELOCITY, BOB_WIDTH, CASTLE_HEIGHT, CASTLE_WIDTH,
    COIN_HEIGHT_BOX, COIN_WIDTH, DRAW_RANGE, PLATFORM_HEIGHT, PLATFORM_WIDTH, SPRING_HEIGHT_BOX,
    SPRING_JUMP_VELOCITY, SPRING_WIDTH, SQUIRREL_HEIGHT, SQUIRREL_WIDTH,
};

verus! {

/// A struck platform starts pulverizing when its draw exceeds this (50%).
pub const PULVERIZE_THRESHOLD: u32 = 500_000;

/// Points one coin is worth.
pub const COIN_SCORE: u32 = 10;

pub open spec fn bob_hits_platform(b: Bob, p: Platform) -> bool {
    overlaps(
        b.x as int,
        b.y as int,
        BOB_WIDTH as int,
        BOB_HEIGHT as int,
        p.x as int,
        p.y as int,
        PLATFORM_WIDTH as int,
        PLATFORM_HEIGHT as int,
    )
}

pub open spec fn bob_hits_spring(b: Bob, s: Spring) -> bool {
    overlaps(
        b.x as int,
        b.y as int,
        BOB_WIDTH as int,
        BOB_HEIGHT as int,
        s.x as int,
        s.y as int,
        SPRING_WIDTH as int,
        SPRING_HEIGHT_BOX as int,
    )
}

pub open spec fn bob_hits_coin(b: Bob, c: Coin) -> bool {
    overlaps(
        b.x as int,
        b.y as int,
        BOB_WIDTH as int,
        BOB_HEIGHT as int,
        c.x as int,
        c.y as int,
        COIN_WIDTH as int,
        COIN_HEIGHT_BOX as int,
    )
}

pub open spec fn bob_hits_squirrel(b: Bob, s: Squirrel) -> bool {
    overlaps(
        b.x as int,
        b.y as int,
        BOB_WIDTH as int,
        BOB_HEIGHT as int,
        s.x as int,
        s.y as int,
        SQUIRREL_WIDTH as int,
        SQUIRREL_HEIGHT as int,
    )
}

pub open spec fn bob_hits_castle(b: Bob, c: Castle) -> bool {
    overlaps(
        b.x as int,
        b.y as int,
        BOB_WIDTH as int,
        BOB_HEIGHT as int,
        c.x as int,
        c.y as int,
        CASTLE_WIDTH as int,
        CASTLE_HEIGHT as int,
    )
}

/// Index of the first platform the player overlaps, or -1.
pub open spec fn first_platform_hit(b: Bob, s: Seq<Platform>) -> int
    decreases s.len(),
{
    if s.len() == 0 {
        -1
    } else if bob_hits_platform(b, s[0]) {
        0
    } else {
        let r = first_platform_hit(b, s.skip(1));
        if r == -1 {
            -1
        } else {
            1 + r
        }
    }
}

pub proof fn lemma_first_platform_hit(b: Bob, s: Seq<Platform>)
    ensures
        first_platform_hit(b, s) == -1 ==> forall|i: int|
            0 <= i < s.len() ==> !bob_hits_platform(b, #[trigger] s[i]),
        first_platform_hit(b, s) != -1 ==> {
            &&& 0 <= first_platform_hit(b, s) < s.len()
            &&& bob_hits_platform(b, s[first_platform_hit(b, s)])
            &&& forall|j: int|
                0 <= j < first_platform_hit(b, s) ==> !bob_hits_platform(b, #[trigger] s[j])
        },
    decreases s.len(),
{
    if s.len() == 0 {
    } else if bob_hits_platform(b, s[0]) {
    } else {
        lemma_first_platform_hit(b, s.skip(1));
        let r = first_platform_hit(b, s.skip(1));
        assert forall|i: int| 0 <= i < s.len() && i != 0 implies s.skip(1)[i - 1] == s[i] by {}
        if r == -1 {
            assert forall|i: int| 0 <= i < s.len() implies !bob_hits_platform(b, #[trigger] s[i]) by {
                if i > 0 {
                    assert(s.skip(1)[i - 1] == s[i]);
                }
            }
        } else {
            assert(s.skip(1)[r] == s[r + 1]);
            assert forall|j: int| 0 <= j < r + 1 implies !bob_hits_platform(b, #[trigger] s[j]) by {
                if j > 0 {
                    assert(s.skip(1)[j - 1] == s[j]);
                }
            }
        }
    }
}

/// Index of the first spring the player overlaps, or -1.
pub open spec fn first_spring_hit(b: Bob, s: Seq<Spring>) -> int
    decreases s.len(),
{
    if s.len() == 0 {
        -1
    } else if bob_hits_spring(b, s[0]) {
        0
    } else {
        let r = first_spring_hit(b, s.skip(1));
        if r == -1 {
            -1
        } else {
            1 + r
        }
    }
}

pub proof fn lemma_first_spring_hit(b: Bob, s: Seq<Spring>)
    ensures
        first_spring_hit(b, s) == -1 ==> forall|i: int|
            0 <= i < s.len() ==> !bob_hits_spring(b, #[trigger] s[i]),
        first_spring_hit(b, s) != -1 ==> {
            &&& 0 <= first_spring_hit(b, s) < s.len()
            &&& bob_hits_spring(b, s[first_spring_hit(b, s)])
            &&& forall|j: int|
                0 <= j < first_spring_hit(b, s) ==> !bob_hits_spring(b, #[trigger] s[j])
        },
    decreases s.len(),
{
    if s.len() == 0 {
    } else if bob_hits_spring(b, s[0]) {
    } else {
        lemma_first_spring_hit(b, s.skip(1));
        let r = first_spring_hit(b, s.skip(1));
        if r == -1 {
            assert forall|i: int| 0 <= i < s.len() implies !bob_hits_spring(b, #[trigger] s[i]) by {
                if i > 0 {
                    assert(s.skip(1)[i - 1] == s[i]);
                }
            }
        } else {
            assert(s.skip(1)[r] == s[r + 1]);
            assert forall|j: int| 0 <= j < r + 1 implies !bob_hits_spring(b, #[trigger] s[j]) by {
                if j > 0 {
                    assert(s.skip(1)[j - 1] == s[j]);
                }
            }
        }
    }
}

/// What the platform rule does: nothing while the player moves upward or
/// clears every platform; on the first overlapped platform the player
/// bounces, and that one platform starts pulverizing exactly when the draw
/// exceeds the half-way threshold.
pub open spec fn platform_collision_ok(
    b: Bob,
    ps: Seq<Platform>,
    draw: u32,
    b2: Bob,
    ps2: Seq<Platform>,
    hit: bool,
) -> bool {
    if b.velocity_y > 0 || first_platform_hit(b, ps) == -1 {
        b2 == b && ps2 == ps && !hit
    } else {
        let k = first_platform_hit(b, ps);
        &&& hit
        &&& b2.x == b.x && b2.y == b.y && b2.velocity_x == b.velocity_x
        &&& b2.velocity_y == BOB_JUMP_VELOCITY
        &&& ps2.len() == ps.len()
        &&& forall|j: int| 0 <= j < ps.len() && j != k ==> ps2[j] == ps[j]
        &&& ps2[k].x == ps[k].x && ps2[k].y == ps[k].y && ps2[k].moving == ps[k].moving && ps2[k].dir
            == ps[k].dir
        &&& ps2[k].state == if draw > PULVERIZE_THRESHOLD {
            PlatformState::Pulverizing(PULVERIZE_TICKS)
        } else {
            ps[k].state
        }
    }
}

/// The platform rule. Fires only while the player is not moving upward; the
/// first overlapped platform (in live order) bounces the player, and with
/// the drawn chance starts pulverizing. Returns whether a bounce happened.
pub fn check_platform_collisions(
    bob: &mut Bob,
    platforms: &mut Vec<Platform>,
    draw: u32,
) -> (hit: bool)
    requires
        old(bob).wf(),
        draw < DRAW_RANGE,
        forall|i: int| 0 <= i < old(platforms)@.len() ==> (#[trigger] old(platforms)@[i]).wf(),
    ensures
        final(bob).wf(),
        forall|i: int| 0 <= i < final(platforms)@.len() ==> (#[trigger] final(platforms)@[i]).wf(),
        platform_collision_ok(
            *old(bob),
            old(platforms)@,
            draw,
            *final(bob),
            final(platforms)@,
            hit,
        ),
{
    let ghost ps0 = platforms@;
    if bob.velocity_y > 0 {
        return false;
    }
    let mut i: usize = 0;
    while i < platforms.len()
        invariant
            bob.wf(),
            *bob == *old(bob),
            old(bob).velocity_y <= 0,
            draw < DRAW_RANGE,
            ps0 == old(platforms)@,
            platforms@ == ps0,
            forall|j: int| 0 <= j < ps0.len() ==> (#[trigger] ps0[j]).wf(),
            0 <= i <= ps0.len(),
            forall|j: int| 0 <= j < i ==> !bob_hits_platform(*bob, #[trigger] ps0[j]),
        decreases ps0.len() - i,
    {
        let p = platforms[i];
        proof {
            assert(ps0[i as int].wf());
        }
        if collide(
            bob.x,
            bob.y,
            BOB_WIDTH,
            BOB_HEIGHT,
            p.x,
            p.y,
            PLATFORM_WIDTH,
            PLATFORM_HEIGHT,
        ) {
            proof {
                lemma_first_platform_hit(*bob, ps0);
                assert(bob_hits_platform(*bob, ps0[i as int]));
                assert(first_platform_hit(*bob, ps0) == i) by {
                    let k = first_platform_hit(*bob, ps0);
                    if k == -1 {
                    } else if k < i {
                        assert(!bob_hits_platform(*bob, ps0[k]));
                    } else if k > i {
                        assert(!bob_hits_platform(*bob, ps0[i as int]));
                    }
                }
            }
            bob.velocity_y = BOB_JUMP_VELOCITY;
            if draw > PULVERIZE_THRESHOLD {
                platforms.set(
                    i,
                    Platform {
                        x: p.x,
                        y: p.y,
                        moving: p.moving,
                        dir: p.dir,
                        state: PlatformState::Pulverizing(PULVERIZE_TICKS),
                    },
                );
                proof {
                    assert(platforms@[i as int].wf());
                }
            }
            return true;
        }
        i = i + 1;
    }
    proof {
        lemma_first_platform_hit(*bob, ps0);
        assert(first_platform_hit(*bob, ps0) == -1) by {
            let k = first_platform_hit(*bob, ps0);
            if k != -1 {
                assert(!bob_hits_platform(*bob, ps0[k]));
            }
        }
    }
    false
}

/// What the spring rule does: nothing while the player moves upward or
/// touches no spring; otherwise the first overlapped spring boosts the
/// player half again as high as a platform bounce. Springs survive.
pub open spec fn spring_collision_ok(b: Bob, ss: Seq<Spring>, b2: Bob, hit: bool) -> bool {
    if b.velocity_y > 0 || first_spring_hit(b, ss) == -1 {
        b2 == b && !hit
    } else {
        &&& hit
        &&& b2.x == b.x && b2.y == b.y && b2.velocity_x == b.velocity_x
        &&& b2.velocity_y == SPRING_JUMP_VELOCITY
    }
}

/// The spring rule; springs are never consumed.
pub fn check_spring_collisions(bob: &mut Bob, springs: &Vec<Spring>) -> (hit: bool)
    requires
        old(bob).wf(),
        forall|i: int| 0 <= i < springs@.len() ==> (#[trigger] springs@[i]).wf(),
    ensures
        final(bob).wf(),
        spring_collision_ok(*old(bob), springs@, *final(bob), hit),
{
    if bob.velocity_y > 0 {
        return false;
    }
    let mut i: usize = 0;
    while i < springs.len()
        invariant
            bob.wf(),
            *bob == *old(bob),
            old(bob).velocity_y <= 0,
            forall|j: int| 0 <= j < springs@.len() ==> (#[trigger] springs@[j]).wf(),
            0 <= i <= springs@.len(),
            forall|j: int| 0 <= j < i ==> !bob_hits_spring(*bob, #[trigger] springs@[j]),
        decreases springs@.len() - i,
    {
        let s = springs[i];
        proof {
            assert(springs@[i as int].wf());
        }
        if collide(bob.x, bob.y, BOB_WIDTH, BOB_HEIGHT, s.x, s.y, SPRING_WIDTH, SPRING_HEIGHT_BOX) {
            proof {
                lemma_first_spring_hit(*bob, springs@);
                assert(first_spring_hit(*bob, springs@) == i) by {
                    let k = first_spring_hit(*bob, springs@);
                    if k == -1 {
                    } else if k < i {
                        assert(!bob_hits_spring(*bob, springs@[k]));
                    } else if k > i {
                        assert(!bob_hits_spring(*bob, springs@[i as int]));
                    }
                }
            }
            bob.velocity_y = SPRING_JUMP_VELOCITY;
            return true;
        }
        i = i + 1;
    }
    proof {
        lemma_first_spring_hit(*bob, springs@);
        assert(first_spring_hit(*bob, springs@) == -1) by {
            let k = first_spring_hit(*bob, springs@);
            if k != -1 {
                assert(!bob_hits_spring(*bob, springs@[k]));
            }
        }
    }
    false
}

/// The player with only the vertical velocity replaced.
pub open spec fn bob_with_velocity_y(b: Bob, vy: int) -> Bob {
    Bob { x: b.x, y: b.y, velocity_x: b.velocity_x, velocity_y: vy as i64 }
}

/// Index of the platform the rule strikes: -1 while the player rises or
/// when nothing overlaps.
pub open spec fn platform_hit_index(b: Bob, ps: Seq<Platform>) -> int {
    if b.velocity_y > 0 {
        -1
    } else {
        first_platform_hit(b, ps)
    }
}

/// A platform at the start of its destruction countdown.
pub open spec fn pulverized(p: Platform) -> Platform {
    Platform {
        x: p.x,
        y: p.y,
        moving: p.moving,
        dir: p.dir,
        state: PlatformState::Pulverizing(PULVERIZE_TICKS),
    }
}

/// The platforms after the rule: only a struck one changes, and only under
/// the drawn chance.
pub open spec fn platforms_after_bounce(b: Bob, ps: Seq<Platform>, draw: u32) -> Seq<Platform> {
    let k = platform_hit_index(b, ps);
    if k == -1 || draw <= PULVERIZE_THRESHOLD {
        ps
    } else {
        ps.update(k, pulverized(ps[k]))
    }
}

/// The player after the rule: bounced exactly when a platform was struck.
pub open spec fn bob_after_bounce(b: Bob, ps: Seq<Platform>) -> Bob {
    if platform_hit_index(b, ps) == -1 {
        b
    } else {
        bob_with_velocity_y(b, BOB_JUMP_VELOCITY as int)
    }
}

/// The platform rule's relation determines these values.
pub proof fn lemma_platform_collision_fn(
    b: Bob,
    ps: Seq<Platform>,
    draw: u32,
    b2: Bob,
    ps2: Seq<Platform>,
    hit: bool,
)
    requires
        platform_collision_ok(b, ps, draw, b2, ps2, hit),
    ensures
        hit == (platform_hit_index(b, ps) != -1),
        b2 == bob_after_bounce(b, ps),
        ps2 == platforms_after_bounce(b, ps, draw),
{
    lemma_first_platform_hit(b, ps);
    if b.velocity_y > 0 || first_platform_hit(b, ps) == -1 {
    } else {
        let k = first_platform_hit(b, ps);
        let m = bob_after_bounce(b, ps);
        assert(b2.x == m.x && b2.y == m.y && b2.velocity_x == m.velocity_x && b2.velocity_y
            == m.velocity_y);
        if draw > PULVERIZE_THRESHOLD {
            assert forall|j: int| 0 <= j < ps2.len() implies #[trigger] ps2[j]
                == platforms_after_bounce(b, ps, draw)[j] by {
                if j == k {
                    let q = ps2[j];
                    let p = pulverized(ps[k]);
                    assert(q.x == p.x && q.y == p.y && q.moving == p.moving && q.dir == p.dir
                        && q.state == p.state);
                }
            }
            assert(ps2 =~= platforms_after_bounce(b, ps, draw));
        } else {
            assert forall|j: int| 0 <= j < ps2.len() implies #[trigger] ps2[j] == ps[j] by {
                if j == k {
                    let q = ps2[j];
                    let p = ps[k];
                    assert(q.x == p.x && q.y == p.y && q.moving == p.moving && q.dir == p.dir
                        && q.state == p.state);
                }
            }
            assert(ps2 =~= ps);
        }
    }
}

/// Whether the spring rule fires: the player is not rising and some spring
/// overlaps.
pub open spec fn spring_hit_occurs(b: Bob, ss: Seq<Spring>) -> bool {
    b.velocity_y <= 0 && first_spring_hit(b, ss) != -1
}

/// The player after the spring rule: boosted exactly when it fired.
pub open spec fn bob_after_spring(b: Bob, ss: Seq<Spring>) -> Bob {
    if spring_hit_occurs(b, ss) {
        bob_with_velocity_y(b, SPRING_JUMP_VELOCITY as int)
    } else {
        b
    }
}

/// The spring rule's relation determines these values.
pub proof fn lemma_spring_collision_fn(b: Bob, ss: Seq<Spring>, b2: Bob, hit: bool)
    requires
        spring_collision_ok(b, ss, b2, hit),
    ensures
        hit == spring_hit_occurs(b, ss),
        b2 == bob_after_spring(b, ss),
{
    let m = bob_after_spring(b, ss);
    assert(b2.x == m.x && b2.y == m.y && b2.velocity_x == m.velocity_x && b2.velocity_y
        == m.velocity_y);
}

/// While the player moves upward no platform or spring rule fires: a tick
/// that runs the platform rule and then the spring rule on a rising player
/// changes nothing and reports no hit.
pub proof fn lemma_upward_gate(
    b: Bob,
    ps: Seq<Platform>,
    ss: Seq<Spring>,
    draw: u32,
    b2: Bob,
    ps2: Seq<Platform>,
    b3: Bob,
    hit_platform: bool,
    hit_spring: bool,
)
    requires
        b.velocity_y > 0,
        platform_collision_ok(b, ps, draw, b2, ps2, hit_platform),
        spring_collision_ok(b2, ss, b3, hit_spring),
    ensures
        !hit_platform,
        !hit_spring,
        b3 == b,
        ps2 == ps,
{
}

/// The coins that remain after every overlapped one is collected.
pub open spec fn surviving_coins(b: Bob, s: Seq<Coin>) -> Seq<Coin>
    decreases s.len(),
{
    if s.len() == 0 {
        Seq::empty()
    } else {
        let rest = surviving_coins(b, s.drop_last());
        if bob_hits_coin(b, s.last()) {
            rest
        } else {
            rest.push(s.last())
        }
    }
}

pub proof fn lemma_surviving_coins_len(b: Bob, s: Seq<Coin>)
    ensures
        surviving_coins(b, s).len() <= s.len(),
    decreases s.len(),
{
    if s.len() > 0 {
        lemma_surviving_coins_len(b, s.drop_last());
    }
}

/// The coin rule: every overlapped coin is destroyed, each worth a fixed
/// score, all in one tick; there is no velocity gate.
pub fn check_coin_collisions(bob: &Bob, coins: &mut Vec<Coin>, points: &mut u32) -> (collected:
    u32)
    requires
        bob.wf(),
        forall|i: int| 0 <= i < old(coins)@.len() ==> (#[trigger] old(coins)@[i]).wf(),
        *old(points) + COIN_SCORE * old(coins)@.len() <= u32::MAX,
    ensures
        forall|i: int| 0 <= i < final(coins)@.len() ==> (#[trigger] final(coins)@[i]).wf(),
        final(coins)@ == surviving_coins(*bob, old(coins)@),
        collected == old(coins)@.len() - final(coins)@.len(),
        *final(points) == *old(points) + COIN_SCORE * collected,
{
    let ghost cs0 = coins@;
    let ghost p0 = *points;
    let mut kept: Vec<Coin> = Vec::new();
    let mut collected: u32 = 0;
    let mut i: usize = 0;
    while i < coins.len()
        invariant
            bob.wf(),
            coins@ == cs0,
            forall|j: int| 0 <= j < cs0.len() ==> (#[trigger] cs0[j]).wf(),
            0 <= i <= cs0.len(),
            p0 + COIN_SCORE * cs0.len() <= u32::MAX,
            kept@ == surviving_coins(*bob, cs0.take(i as int)),
            kept@.len() + collected == i,
            *points == p0 + COIN_SCORE * collected,
            forall|j: int| 0 <= j < kept@.len() ==> (#[trigger] kept@[j]).wf(),
        decreases cs0.len() - i,
    {
        let c = coins[i];
        proof {
            assert(cs0[i as int].wf());
            assert(cs0.take(i + 1).drop_last() =~= cs0.take(i as int));
            assert(cs0.take(i + 1).last() == cs0[i as int]);
        }
        if collide(bob.x, bob.y, BOB_WIDTH, BOB_HEIGHT, c.x, c.y, COIN_WIDTH, COIN_HEIGHT_BOX) {
            collected = collected + 1;
            *points = *points + COIN_SCORE;
        } else {
            kept.push(c);
        }
        i = i + 1;
    }
    proof {
        assert(cs0.take(cs0.len() as int) =~= cs0);
        lemma_surviving_coins_len(*bob, cs0);
    }
    *coins = kept;
    collected
}

/// No coin that survives collection still overlaps the player.
pub proof fn lemma_surviving_coins_clear(b: Bob, s: Seq<Coin>)
    ensures
        forall|i: int|
            0 <= i < surviving_coins(b, s).len() ==> !bob_hits_coin(
                b,
                #[trigger] surviving_coins(b, s)[i],
            ),
    decreases s.len(),
{
    if s.len() > 0 {
        lemma_surviving_coins_clear(b, s.drop_last());
        let rest = surviving_coins(b, s.drop_last());
        if !bob_hits_coin(b, s.last()) {
            assert forall|i: int|
                0 <= i < surviving_coins(b, s).len() implies !bob_hits_coin(
                b,
                #[trigger] surviving_coins(b, s)[i],
            ) by {
                if i < rest.len() {
                    assert(surviving_coins(b, s)[i] == rest[i]);
                }
            }
        }
    }
}

/// Collection leaves a set it cannot touch again untouched.
pub proof fn lemma_surviving_coins_fixed(b: Bob, s: Seq<Coin>)
    requires
        forall|i: int| 0 <= i < s.len() ==> !bob_hits_coin(b, #[trigger] s[i]),
    ensures
        surviving_coins(b, s) == s,
    decreases s.len(),
{
    if s.len() > 0 {
        assert(forall|i: int|
            0 <= i < s.drop_last().len() ==> !bob_hits_coin(b, #[trigger] s.drop_last()[i]));
        lemma_surviving_coins_fixed(b, s.drop_last());
        assert(surviving_coins(b, s) =~= s);
    } else {
        assert(surviving_coins(b, s) =~= s);
    }
}

/// Coin pickup is idempotent per coin instance: one pass destroys every coin
/// it scores, so a second pass over the survivors scores nothing and
/// destroys nothing.
pub proof fn lemma_coin_pickup_idempotent(b: Bob, s: Seq<Coin>)
    ensures
        surviving_coins(b, surviving_coins(b, s)) == surviving_coins(b, s),
{
    lemma_surviving_coins_clear(b, s);
    lemma_surviving_coins_fixed(b, surviving_coins(b, s));
}

/// The squirrel rule: touching any squirrel ends the run. This only reports
/// the hit; the caller makes the state transition.
pub fn check_squirrel_collisions(bob: &Bob, squirrels: &Vec<Squirrel>) -> (hit: bool)
    requires
        bob.wf(),
        forall|i: int| 0 <= i < squirrels@.len() ==> (#[trigger] squirrels@[i]).wf(),
    ensures
        hit == exists|i: int| 0 <= i < squirrels@.len() && bob_hits_squirrel(*bob, #[trigger] squirrels@[i]),
{
    let mut i: usize = 0;
    while i < squirrels.len()
        invariant
            bob.wf(),
            forall|j: int| 0 <= j < squirrels@.len() ==> (#[trigger] squirrels@[j]).wf(),
            0 <= i <= squirrels@.len(),
            forall|j: int| 0 <= j < i ==> !bob_hits_squirrel(*bob, #[trigger] squirrels@[j]),
        decreases squirrels@.len() - i,
    {
        let s = squirrels[i];
        proof {
            assert(squirrels@[i as int].wf());
        }
        if collide(bob.x, bob.y, BOB_WIDTH, BOB_HEIGHT, s.x, s.y, SQUIRREL_WIDTH, SQUIRREL_HEIGHT) {
            return true;
        }
        i = i + 1;
    }
    false
}

/// The castle rule: touching the castle wins the run. This only reports the
/// hit; the caller submits the score and makes the transitions.
pub fn check_castle_collisions(bob: &Bob, castles: &Vec<Castle>) -> (hit: bool)
    requires
        bob.wf(),
        forall|i: int| 0 <= i < castles@.len() ==> (#[trigger] castles@[i]).wf(),
    ensures
        hit == exists|i: int| 0 <= i < castles@.len() && bob_hits_castle(*bob, #[trigger] castles@[i]),
{
    let mut i: usize = 0;
    while i < castles.len()
        invariant
            bob.wf(),
            forall|j: int| 0 <= j < castles@.len() ==> (#[trigger] castles@[j]).wf(),
            0 <= i <= castles@.len(),
            forall|j: int| 0 <= j < i ==> !bob_hits_castle(*bob, #[trigger] castles@[j]),
        decreases castles@.len() - i,
    {
        let c = castles[i];
        proof {
            assert(castles@[i as int].wf());
        }
        if collide(bob.x, bob.y, BOB_WIDTH, BOB_HEIGHT, c.x, c.y, CASTLE_WIDTH, CASTLE_HEIGHT) {
            return true;
        }
        i = i + 1;
    }
    false
}

/// One countdown step of the destruction animation: a normal platform
/// stands, a pulverizing one counts down, and one whose count runs out is
/// removed.
pub open spec fn pulverize_stepped(s: Seq<Platform>) -> Seq<Platform>
    decreases s.len(),
{
    if s.len() == 0 {
        Seq::empty()
    } else {
        let rest = pulverize_stepped(s.drop_last());
        let p = s.last();
        match p.state {
            PlatformState::Normal => rest.push(p),
            PlatformState::Pulverizing(k) => if k <= 1 {
                rest
            } else {
                rest.push(
                    Platform {
                        x: p.x,
                        y: p.y,
                        moving: p.moving,
                        dir: p.dir,
                        state: PlatformState::Pulverizing((k - 1) as u32),
                    },
                )
            },
        }
    }
}

pub proof fn lemma_pulverize_stepped_len(s: Seq<Platform>)
    ensures
        pulverize_stepped(s).len() <= s.len(),
    decreases s.len(),
{
    if s.len() > 0 {
        lemma_pulverize_stepped_len(s.drop_last());
    }
}

/// Advances every pulverizing platform's countdown one running tick,
/// removing those whose countdown runs out.
pub fn step_pulverizing(platforms: &mut Vec<Platform>)
    requires
        forall|i: int| 0 <= i < old(platforms)@.len() ==> (#[trigger] old(platforms)@[i]).wf(),
    ensures
        forall|i: int| 0 <= i < final(platforms)@.len() ==> (#[trigger] final(platforms)@[i]).wf(),
        final(platforms)@ == pulverize_stepped(old(platforms)@),
{
    let ghost ps0 = platforms@;
    let mut kept: Vec<Platform> = Vec::new();
    let mut i: usize = 0;
    while i < platforms.len()
        invariant
            platforms@ == ps0,
            forall|j: int| 0 <= j < ps0.len() ==> (#[trigger] ps0[j]).wf(),
            0 <= i <= ps0.len(),
            kept@ == pulverize_stepped(ps0.take(i as int)),
            forall|j: int| 0 <= j < kept@.len() ==> (#[trigger] kept@[j]).wf(),
        decreases ps0.len() - i,
    {
        let p = platforms[i];
        proof {
            assert(ps0[i as int].wf());
            assert(ps0.take(i + 1).drop_last() =~= ps0.take(i as int));
            assert(ps0.take(i + 1).last() == ps0[i as int]);
        }
        match p.state {
            PlatformState::Normal => {
                kept.push(p);
            },
            PlatformState::Pulverizing(k) => {
                if k > 1 {
                    kept.push(
                        Platform {
                            x: p.x,
                            y: p.y,
                            moving: p.moving,
                            dir: p.dir,
                            state: PlatformState::Pulverizing(k - 1),
                        },
                    );
                }
            },
        }
        i = i + 1;
    }
    proof {
        assert(ps0.take(ps0.len() as int) =~= ps0);
    }
    *platforms = kept;
}

/// Repeated countdown steps.
pub open spec fn pulverize_stepped_n(s: Seq<Platform>, n: int) -> Seq<Platform>
    decreases n,
{
    if n <= 0 {
        s
    } else {
        pulverize_stepped(pulverize_stepped_n(s, n - 1))
    }
}

/// A platform that enters pulverizing with countdown `k` survives exactly
/// `k` further running ticks: after `j < k` steps it still stands, its
/// countdown at `k - j`, and the `k`-th step removes it — never earlier.
pub proof fn lemma_pulverize_lifetime(p: Platform, k: u32, j: int)
    requires
        p.state == PlatformState::Pulverizing(k),
        k >= 1,
        0 <= j <= k,
    ensures
        j < k ==> pulverize_stepped_n(seq![p], j) =~= seq![
            Platform {
                x: p.x,
                y: p.y,
                moving: p.moving,
                dir: p.dir,
                state: PlatformState::Pulverizing((k - j) as u32),
            },
        ],
        j == k ==> pulverize_stepped_n(seq![p], j) =~= Seq::<Platform>::empty(),
    decreases j,
{
    if j == 0 {
        assert(pulverize_stepped_n(seq![p], 0) == seq![p]);
        assert(p == Platform {
            x: p.x,
            y: p.y,
            moving: p.moving,
            dir: p.dir,
            state: PlatformState::Pulverizing((k - 0) as u32),
        });
    } else {
        lemma_pulverize_lifetime(p, k, j - 1);
        let prev = pulverize_stepped_n(seq![p], j - 1);
        let q = Platform {
            x: p.x,
            y: p.y,
            moving: p.moving,
            dir: p.dir,
            state: PlatformState::Pulverizing((k - (j - 1)) as u32),
        };
        assert(prev =~= seq![q]);
        assert(pulverize_stepped_n(seq![p], j) == pulverize_stepped(prev));
        assert(prev == seq![q]);
        assert(seq![q].drop_last() =~= Seq::<Platform>::empty());
        assert(seq![q].last() == q);
        assert(pulverize_stepped(Seq::<Platform>::empty()) == Seq::<Platform>::empty());
        assert(pulverize_stepped(seq![q].drop_last()) == Seq::<Platform>::empty());
        if j < k {
            assert(pulverize_stepped(seq![q]) =~= seq![
                Platform {
                    x: p.x,
                    y: p.y,
                    moving: p.moving,
                    dir: p.dir,
                    state: PlatformState::Pulverizing((k - j) as u32),
                },
            ]);
        } else {
            assert(k - (j - 1) == 1);
            assert(pulverize_stepped(seq![q]) =~= Seq::<Platform>::empty());
        }
    }
}

} // verus!
