//! The object lifecycle: pending descriptors spawn into live entities once
//! the camera approaches them, spawned descriptors are pruned, and live
//! coins and moving platforms that scroll off the bottom of the view are
//! destroyed. The dual window keeps the live set to about a screenful.

use vstd::prelude::*;
use crate::entities::{Castle, Coin, Platform, PlatformState, Spring, Squirrel};
use crate::level::{GameObject, GameObjectType};
use crate::world::{POS_LIMIT, SCREEN_HALF_HEIGHT, WORLD_HALF_WIDTH};

verus! {

/// A pending object spawns once its generated height is within this margin
/// above the camera (1.1 screen heights).
pub const SPAWN_MARGIN: i64 = 528_000_000;

/// A live dynamic entity is destroyed once it falls this far below the
/// camera (1.2 screen half-heights).
pub const DESPAWN_MARGIN: i64 = 288_000_000;

/// Whether a pending object spawns at this camera height.
pub open spec fn spawns_now(o: GameObject, cam: int) -> bool {
    !o.is_spawned && o.y <= cam + SPAWN_MARGIN
}

/// A descriptor after the spawn pass: marked spawned if it spawned now.
pub open spec fn mark_one(o: GameObject, cam: int) -> GameObject {
    if spawns_now(o, cam) {
        GameObject { object_type: o.object_type, x: o.x, y: o.y, is_spawned: true }
    } else {
        o
    }
}

/// The pending table after the spawn pass.
pub open spec fn mark_spawned(s: Seq<GameObject>, cam: int) -> Seq<GameObject>
    decreases s.len(),
{
    if s.len() == 0 {
        Seq::empty()
    } else {
        mark_spawned(s.drop_last(), cam).push(mark_one(s.last(), cam))
    }
}

/// The live platforms the spawn pass creates, in pending order.
pub open spec fn new_platforms(s: Seq<GameObject>, cam: int) -> Seq<Platform>
    decreases s.len(),
{
    if s.len() == 0 {
        Seq::empty()
    } else {
        let rest = new_platforms(s.drop_last(), cam);
        let o = s.last();
        match o.object_type {
            GameObjectType::Platform(m) => if spawns_now(o, cam) {
                rest.push(
                    Platform {
                        x: (o.x - WORLD_HALF_WIDTH) as i64,
                        y: (o.y - SCREEN_HALF_HEIGHT) as i64,
                        moving: m,
                        dir: 1,
                        state: PlatformState::Normal,
                    },
                )
            } else {
                rest
            },
            _ => rest,
        }
    }
}

/// The live coins the spawn pass creates.
pub open spec fn new_coins(s: Seq<GameObject>, cam: int) -> Seq<Coin>
    decreases s.len(),
{
    if s.len() == 0 {
        Seq::empty()
    } else {
        let rest = new_coins(s.drop_last(), cam);
        let o = s.last();
        if spawns_now(o, cam) && o.object_type is Coin {
            rest.push(
                Coin { x: (o.x - WORLD_HALF_WIDTH) as i64, y: (o.y - SCREEN_HALF_HEIGHT) as i64 },
            )
        } else {
            rest
        }
    }
}

/// The live springs the spawn pass creates.
pub open spec fn new_springs(s: Seq<GameObject>, cam: int) -> Seq<Spring>
    decreases s.len(),
{
    if s.len() == 0 {
        Seq::empty()
    } else {
        let rest = new_springs(s.drop_last(), cam);
        let o = s.last();
        if spawns_now(o, cam) && o.object_type is Spring {
            rest.push(
                Spring { x: (o.x - WORLD_HALF_WIDTH) as i64, y: (o.y - SCREEN_HALF_HEIGHT) as i64 },
            )
        } else {
            rest
        }
    }
}

/// The live squirrels the spawn pass creates.
pub open spec fn new_squirrels(s: Seq<GameObject>, cam: int) -> Seq<Squirrel>
    decreases s.len(),
{
    if s.len() == 0 {
        Seq::empty()
    } else {
        let rest = new_squirrels(s.drop_last(), cam);
        let o = s.last();
        if spawns_now(o, cam) && o.object_type is Squirrel {
            rest.push(
                Squirrel {
                    x: (o.x - WORLD_HALF_WIDTH) as i64,
                    y: (o.y - SCREEN_HALF_HEIGHT) as i64,
                    dir: 1,
                },
            )
        } else {
            rest
        }
    }
}

/// The live castles the spawn pass creates.
pub open spec fn new_castles(s: Seq<GameObject>, cam: int) -> Seq<Castle>
    decreases s.len(),
{
    if s.len() == 0 {
        Seq::empty()
    } else {
        let rest = new_castles(s.drop_last(), cam);
        let o = s.last();
        if spawns_now(o, cam) && o.object_type is Castle {
            rest.push(
                Castle { x: (o.x - WORLD_HALF_WIDTH) as i64, y: (o.y - SCREEN_HALF_HEIGHT) as i64 },
            )
        } else {
            rest
        }
    }
}

/// A descriptor within the generated world, with platforms clear of the
/// walls; spawning such an object yields a well-formed live entity.
pub open spec fn object_geom_ok(o: GameObject) -> bool {
    &&& 0 <= o.x <= 2 * WORLD_HALF_WIDTH
    &&& 0 <= o.y < POS_LIMIT
    &&& o.object_type is Platform ==> 32_000_000 <= o.x <= 288_000_000
}

/// Spawns every pending object the camera has approached, appending its live
/// counterpart to its kind's list and marking the descriptor spawned.
pub fn spawn_objects(
    pending: &mut Vec<GameObject>,
    platforms: &mut Vec<Platform>,
    coins: &mut Vec<Coin>,
    springs: &mut Vec<Spring>,
    squirrels: &mut Vec<Squirrel>,
    castles: &mut Vec<Castle>,
    camera_y: i64,
)
    requires
        0 <= camera_y <= POS_LIMIT,
        forall|i: int| 0 <= i < old(pending)@.len() ==> object_geom_ok(#[trigger] old(pending)@[i]),
        forall|i: int| 0 <= i < old(platforms)@.len() ==> (#[trigger] old(platforms)@[i]).wf(),
        forall|i: int| 0 <= i < old(coins)@.len() ==> (#[trigger] old(coins)@[i]).wf(),
        forall|i: int| 0 <= i < old(springs)@.len() ==> (#[trigger] old(springs)@[i]).wf(),
        forall|i: int| 0 <= i < old(squirrels)@.len() ==> (#[trigger] old(squirrels)@[i]).wf(),
        forall|i: int| 0 <= i < old(castles)@.len() ==> (#[trigger] old(castles)@[i]).wf(),
    ensures
        final(pending)@ == mark_spawned(old(pending)@, camera_y as int),
        final(platforms)@ == old(platforms)@ + new_platforms(old(pending)@, camera_y as int),
        final(coins)@ == old(coins)@ + new_coins(old(pending)@, camera_y as int),
        final(springs)@ == old(springs)@ + new_springs(old(pending)@, camera_y as int),
        final(squirrels)@ == old(squirrels)@ + new_squirrels(old(pending)@, camera_y as int),
        final(castles)@ == old(castles)@ + new_castles(old(pending)@, camera_y as int),
        forall|i: int| 0 <= i < final(pending)@.len() ==> object_geom_ok(#[trigger] final(pending)@[i]),
        forall|i: int| 0 <= i < final(platforms)@.len() ==> (#[trigger] final(platforms)@[i]).wf(),
        forall|i: int| 0 <= i < final(coins)@.len() ==> (#[trigger] final(coins)@[i]).wf(),
        forall|i: int| 0 <= i < final(springs)@.len() ==> (#[trigger] final(springs)@[i]).wf(),
        forall|i: int| 0 <= i < final(squirrels)@.len() ==> (#[trigger] final(squirrels)@[i]).wf(),
        forall|i: int| 0 <= i < final(castles)@.len() ==> (#[trigger] final(castles)@[i]).wf(),
{
    let ghost p0 = pending@;
    let ghost cam = camera_y as int;
    let mut i: usize = 0;
    while i < pending.len()
        invariant
            0 <= camera_y <= POS_LIMIT,
            cam == camera_y as int,
            0 <= i <= p0.len(),
            pending@.len() == p0.len(),
            forall|j: int| 0 <= j < p0.len() ==> object_geom_ok(#[trigger] p0[j]),
            forall|j: int| i <= j < p0.len() ==> pending@[j] == p0[j],
            forall|j: int| 0 <= j < i ==> pending@[j] == mark_one(p0[j], cam),
            forall|j: int| 0 <= j < pending@.len() ==> object_geom_ok(#[trigger] pending@[j]),
            platforms@ == old(platforms)@ + new_platforms(p0.take(i as int), cam),
            coins@ == old(coins)@ + new_coins(p0.take(i as int), cam),
            springs@ == old(springs)@ + new_springs(p0.take(i as int), cam),
            squirrels@ == old(squirrels)@ + new_squirrels(p0.take(i as int), cam),
            castles@ == old(castles)@ + new_castles(p0.take(i as int), cam),
            forall|j: int| 0 <= j < old(platforms)@.len() ==> (#[trigger] old(platforms)@[j]).wf(),
            forall|j: int| 0 <= j < old(coins)@.len() ==> (#[trigger] old(coins)@[j]).wf(),
            forall|j: int| 0 <= j < old(springs)@.len() ==> (#[trigger] old(springs)@[j]).wf(),
            forall|j: int| 0 <= j < old(squirrels)@.len() ==> (#[trigger] old(squirrels)@[j]).wf(),
            forall|j: int| 0 <= j < old(castles)@.len() ==> (#[trigger] old(castles)@[j]).wf(),
            forall|j: int| 0 <= j < platforms@.len() ==> (#[trigger] platforms@[j]).wf(),
            forall|j: int| 0 <= j < coins@.len() ==> (#[trigger] coins@[j]).wf(),
            forall|j: int| 0 <= j < springs@.len() ==> (#[trigger] springs@[j]).wf(),
            forall|j: int| 0 <= j < squirrels@.len() ==> (#[trigger] squirrels@[j]).wf(),
            forall|j: int| 0 <= j < castles@.len() ==> (#[trigger] castles@[j]).wf(),
        decreases p0.len() - i,
    {
        proof {
            assert(pending@[i as int] == p0[i as int]);
            assert(object_geom_ok(p0[i as int]));
            assert(p0.take(i + 1).drop_last() =~= p0.take(i as int));
            assert(p0.take(i + 1).last() == p0[i as int]);
        }
        let o_spawned = pending[i].is_spawned;
        let o_y = pending[i].y;
        if !o_spawned && o_y <= camera_y + SPAWN_MARGIN {
            let ox = pending[i].x;
            let lx = ox - WORLD_HALF_WIDTH;
            let ly = o_y - SCREEN_HALF_HEIGHT;
            match pending[i].object_type {
                GameObjectType::Platform(m) => {
                    platforms.push(
                        Platform { x: lx, y: ly, moving: m, dir: 1, state: PlatformState::Normal },
                    );
                },
                GameObjectType::Squirrel => {
                    squirrels.push(Squirrel { x: lx, y: ly, dir: 1 });
                },
                GameObjectType::Coin => {
                    coins.push(Coin { x: lx, y: ly });
                },
                GameObjectType::Spring => {
                    springs.push(Spring { x: lx, y: ly });
                },
                GameObjectType::Castle => {
                    castles.push(Castle { x: lx, y: ly });
                },
            }
            let ot = pending[i].object_type;
            pending.set(i, GameObject { object_type: ot, x: ox, y: o_y, is_spawned: true });
        }
        i = i + 1;
    }
    proof {
        assert(p0.take(p0.len() as int) =~= p0);
        lemma_mark_spawned_pointwise(p0, cam);
        assert(pending@ =~= mark_spawned(p0, cam));
    }
}

/// `mark_spawned` acts index by index.
pub proof fn lemma_mark_spawned_pointwise(s: Seq<GameObject>, cam: int)
    ensures
        mark_spawned(s, cam).len() == s.len(),
        forall|j: int| 0 <= j < s.len() ==> #[trigger] mark_spawned(s, cam)[j] == mark_one(s[j], cam),
    decreases s.len(),
{
    if s.len() > 0 {
        lemma_mark_spawned_pointwise(s.drop_last(), cam);
        assert forall|j: int| 0 <= j < s.len() implies #[trigger] mark_spawned(s, cam)[j]
            == mark_one(s[j], cam) by {
            if j < s.len() - 1 {
                assert(mark_spawned(s, cam)[j] == mark_spawned(s.drop_last(), cam)[j]);
                assert(s.drop_last()[j] == s[j]);
            }
        }
    }
}

/// The descriptors that remain pending: those not yet spawned.
pub open spec fn unspawned(s: Seq<GameObject>) -> Seq<GameObject>
    decreases s.len(),
{
    if s.len() == 0 {
        Seq::empty()
    } else {
        let rest = unspawned(s.drop_last());
        if s.last().is_spawned {
            rest
        } else {
            rest.push(s.last())
        }
    }
}

/// Whether a live coin stays: it has not scrolled off the bottom.
pub open spec fn coin_stays(c: Coin, cam: int) -> bool {
    c.y >= cam - DESPAWN_MARGIN
}

/// The coins still on or near the screen.
pub open spec fn kept_coins(s: Seq<Coin>, cam: int) -> Seq<Coin>
    decreases s.len(),
{
    if s.len() == 0 {
        Seq::empty()
    } else {
        let rest = kept_coins(s.drop_last(), cam);
        if coin_stays(s.last(), cam) {
            rest.push(s.last())
        } else {
            rest
        }
    }
}

/// Whether a platform stays: static platforms persist; a moving one is
/// destroyed once it scrolls off the bottom.
pub open spec fn platform_stays(p: Platform, cam: int) -> bool {
    !p.moving || p.y >= cam - DESPAWN_MARGIN
}

/// The platforms that survive the despawn pass.
pub open spec fn kept_platforms(s: Seq<Platform>, cam: int) -> Seq<Platform>
    decreases s.len(),
{
    if s.len() == 0 {
        Seq::empty()
    } else {
        let rest = kept_platforms(s.drop_last(), cam);
        if platform_stays(s.last(), cam) {
            rest.push(s.last())
        } else {
            rest
        }
    }
}

/// Prunes spawned descriptors from the pending table and destroys the live
/// dynamic entities (moving platforms and coins) that have scrolled off the
/// bottom of the view.
pub fn cleanup_objects(
    pending: &mut Vec<GameObject>,
    platforms: &mut Vec<Platform>,
    coins: &mut Vec<Coin>,
    camera_y: i64,
)
    requires
        0 <= camera_y <= POS_LIMIT,
        forall|i: int| 0 <= i < old(pending)@.len() ==> object_geom_ok(#[trigger] old(pending)@[i]),
        forall|i: int| 0 <= i < old(platforms)@.len() ==> (#[trigger] old(platforms)@[i]).wf(),
        forall|i: int| 0 <= i < old(coins)@.len() ==> (#[trigger] old(coins)@[i]).wf(),
    ensures
        final(pending)@ == unspawned(old(pending)@),
        final(platforms)@ == kept_platforms(old(platforms)@, camera_y as int),
        final(coins)@ == kept_coins(old(coins)@, camera_y as int),
        forall|i: int| 0 <= i < final(pending)@.len() ==> object_geom_ok(#[trigger] final(pending)@[i]),
        forall|i: int| 0 <= i < final(platforms)@.len() ==> (#[trigger] final(platforms)@[i]).wf(),
        forall|i: int| 0 <= i < final(coins)@.len() ==> (#[trigger] final(coins)@[i]).wf(),
{
    let ghost p0 = pending@;
    let mut kept_p: Vec<GameObject> = Vec::new();
    let mut i: usize = 0;
    while i < pending.len()
        invariant
            pending@ == p0,
            0 <= i <= p0.len(),
            forall|j: int| 0 <= j < p0.len() ==> object_geom_ok(#[trigger] p0[j]),
            kept_p@ == unspawned(p0.take(i as int)),
            forall|j: int| 0 <= j < kept_p@.len() ==> object_geom_ok(#[trigger] kept_p@[j]),
        decreases p0.len() - i,
    {
        proof {
            assert(p0.take(i + 1).drop_last() =~= p0.take(i as int));
            assert(p0.take(i + 1).last() == p0[i as int]);
            assert(object_geom_ok(p0[i as int]));
        }
        if !pending[i].is_spawned {
            let ot = pending[i].object_type;
            let ox = pending[i].x;
            let oy = pending[i].y;
            kept_p.push(GameObject { object_type: ot, x: ox, y: oy, is_spawned: false });
            proof {
                assert(GameObject { object_type: ot, x: ox, y: oy, is_spawned: false } == p0[i as int]);
            }
        }
        i = i + 1;
    }
    proof {
        assert(p0.take(p0.len() as int) =~= p0);
    }
    *pending = kept_p;

    let ghost ps0 = platforms@;
    let ghost cam = camera_y as int;
    let mut kept_pl: Vec<Platform> = Vec::new();
    let mut k: usize = 0;
    while k < platforms.len()
        invariant
            platforms@ == ps0,
            0 <= camera_y <= POS_LIMIT,
            cam == camera_y as int,
            0 <= k <= ps0.len(),
            forall|j: int| 0 <= j < ps0.len() ==> (#[trigger] ps0[j]).wf(),
            kept_pl@ == kept_platforms(ps0.take(k as int), cam),
            forall|j: int| 0 <= j < kept_pl@.len() ==> (#[trigger] kept_pl@[j]).wf(),
        decreases ps0.len() - k,
    {
        proof {
            assert(ps0.take(k + 1).drop_last() =~= ps0.take(k as int));
            assert(ps0.take(k + 1).last() == ps0[k as int]);
            assert(ps0[k as int].wf());
        }
        let p = platforms[k];
        if !p.moving || p.y >= camera_y - DESPAWN_MARGIN {
            kept_pl.push(p);
        }
        k = k + 1;
    }
    proof {
        assert(ps0.take(ps0.len() as int) =~= ps0);
    }
    *platforms = kept_pl;

    let ghost cs0 = coins@;
    let mut kept_c: Vec<Coin> = Vec::new();
    let mut m: usize = 0;
    while m < coins.len()
        invariant
            coins@ == cs0,
            0 <= camera_y <= POS_LIMIT,
            cam == camera_y as int,
            0 <= m <= cs0.len(),
            forall|j: int| 0 <= j < cs0.len() ==> (#[trigger] cs0[j]).wf(),
            kept_c@ == kept_coins(cs0.take(m as int), cam),
            forall|j: int| 0 <= j < kept_c@.len() ==> (#[trigger] kept_c@[j]).wf(),
        decreases cs0.len() - m,
    {
        proof {
            assert(cs0.take(m + 1).drop_last() =~= cs0.take(m as int));
            assert(cs0.take(m + 1).last() == cs0[m as int]);
            assert(cs0[m as int].wf());
        }
        let c = coins[m];
        if c.y >= camera_y - DESPAWN_MARGIN {
            kept_c.push(c);
        }
        m = m + 1;
    }
    proof {
        assert(cs0.take(cs0.len() as int) =~= cs0);
    }
    *coins = kept_c;
}

} // verus!
