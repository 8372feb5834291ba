//! Per-tick motion: the player's integration (gravity, input-driven
//! horizontal speed, floor bounce, horizontal wrap, camera follow) and the
//! patrolling of moving platforms and squirrels between the walls.

use vstd::prelude::*;
use crate::entities::{roam_wf, Bob, Platform, Squirrel};
use crate::world::{
    add_clamped, clamped, BOB_JUMP_VELOCITY, BOB_MOVE_VELOCITY, DT_MAX_MS, GRAVITY_Y, PLATFORM_WIDTH,
    POS_LIMIT, ROAM_VELOCITY_X, SCREEN_HALF_HEIGHT, SQUIRREL_WIDTH, VEL_LIMIT, WORLD_HALF_WIDTH,
    WORLD_WIDTH,
};

verus! {

/// Below this height the player bounces automatically: the world floor,
/// half a player above the bottom of the initial screen.
pub const FLOOR_BOUNCE_Y: i64 = -224_000_000;

/// The player's horizontal intent this tick.
#[derive(Clone, Copy, PartialEq, Eq, Structural)]
pub enum InputIntent {
    Left,
    Right,
    Neither,
}

/// The horizontal speed the input model sets: instantaneous, not
/// accumulated.
pub open spec fn input_velocity_x(input: InputIntent) -> int {
    match input {
        InputIntent::Left => -BOB_MOVE_VELOCITY as int,
        InputIntent::Right => BOB_MOVE_VELOCITY as int,
        InputIntent::Neither => 0,
    }
}

/// The player with only the horizontal velocity replaced.
pub open spec fn bob_with_velocity_x(b: Bob, vx: int) -> Bob {
    Bob { x: b.x, y: b.y, velocity_x: vx as i64, velocity_y: b.velocity_y }
}

/// Sets the player's horizontal velocity straight from the input.
pub fn move_bob(bob: &mut Bob, input: InputIntent)
    requires
        old(bob).wf(),
    ensures
        final(bob).wf(),
        final(bob).velocity_x == input_velocity_x(input),
        final(bob).x == old(bob).x,
        final(bob).y == old(bob).y,
        final(bob).velocity_y == old(bob).velocity_y,
{
    match input {
        InputIntent::Left => {
            bob.velocity_x = -BOB_MOVE_VELOCITY;
        },
        InputIntent::Right => {
            bob.velocity_x = BOB_MOVE_VELOCITY;
        },
        InputIntent::Neither => {
            bob.velocity_x = 0;
        },
    }
}

/// How one integration step moves the player and the camera.
///
/// Gravity always acts on the vertical velocity. While the run is live the
/// position integrates, the player bounces off the world floor, wraps
/// horizontally, and the camera follows upward. After a defeat the fall is
/// vertical only, upward motion is clamped away, and the player stops once
/// fallen one screen half-height below the camera.
pub open spec fn bob_step_ok(
    b: Bob,
    cam: int,
    game_over: bool,
    dt: int,
    b2: Bob,
    cam2: int,
) -> bool {
    let vy1 = clamped(b.velocity_y + GRAVITY_Y * dt, VEL_LIMIT as int);
    if game_over {
        let vy2: int = if vy1 >= 0 {
            0
        } else {
            vy1
        };
        let y2: int = if b.y > cam - SCREEN_HALF_HEIGHT {
            clamped(b.y + vy2 * dt, POS_LIMIT as int)
        } else {
            b.y as int
        };
        &&& b2.x == b.x
        &&& b2.y == y2
        &&& b2.velocity_x == b.velocity_x
        &&& b2.velocity_y == vy2
        &&& cam2 == cam
    } else {
        let x1 = b.x + b.velocity_x * dt;
        let y1 = clamped(b.y + vy1 * dt, POS_LIMIT as int);
        let vy2: int = if y1 < FLOOR_BOUNCE_Y {
            BOB_JUMP_VELOCITY as int
        } else {
            vy1
        };
        let x2: int = if x1 < -WORLD_HALF_WIDTH {
            x1 + WORLD_WIDTH
        } else if x1 > WORLD_HALF_WIDTH {
            x1 - WORLD_WIDTH
        } else {
            x1
        };
        &&& b2.x == x2
        &&& b2.y == y1
        &&& b2.velocity_x == b.velocity_x
        &&& b2.velocity_y == vy2
        &&& cam2 == if y1 > cam {
            y1
        } else {
            cam
        }
    }
}

/// The same integration step as values: the player and the camera after it.
pub open spec fn bob_stepped(b: Bob, cam: int, game_over: bool, dt: int) -> (Bob, int) {
    let vy1 = clamped(b.velocity_y + GRAVITY_Y * dt, VEL_LIMIT as int);
    if game_over {
        let vy2: int = if vy1 >= 0 {
            0
        } else {
            vy1
        };
        let y2: int = if b.y > cam - SCREEN_HALF_HEIGHT {
            clamped(b.y + vy2 * dt, POS_LIMIT as int)
        } else {
            b.y as int
        };
        (Bob { x: b.x, y: y2 as i64, velocity_x: b.velocity_x, velocity_y: vy2 as i64 }, cam)
    } else {
        let x1 = b.x + b.velocity_x * dt;
        let y1 = clamped(b.y + vy1 * dt, POS_LIMIT as int);
        let vy2: int = if y1 < FLOOR_BOUNCE_Y {
            BOB_JUMP_VELOCITY as int
        } else {
            vy1
        };
        let x2: int = if x1 < -WORLD_HALF_WIDTH {
            x1 + WORLD_WIDTH
        } else if x1 > WORLD_HALF_WIDTH {
            x1 - WORLD_WIDTH
        } else {
            x1
        };
        let cam2: int = if y1 > cam {
            y1
        } else {
            cam
        };
        (Bob { x: x2 as i64, y: y1 as i64, velocity_x: b.velocity_x, velocity_y: vy2 as i64 }, cam2)
    }
}

/// The step relation determines the step values.
pub proof fn lemma_bob_stepped(b: Bob, cam: int, game_over: bool, dt: int, b2: Bob, cam2: int)
    requires
        bob_step_ok(b, cam, game_over, dt, b2, cam2),
    ensures
        b2 == bob_stepped(b, cam, game_over, dt).0,
        cam2 == bob_stepped(b, cam, game_over, dt).1,
{
    let m = bob_stepped(b, cam, game_over, dt).0;
    assert(b2.x == m.x && b2.y == m.y && b2.velocity_x == m.velocity_x && b2.velocity_y
        == m.velocity_y);
}

/// One integration step for the player and the camera; the camera never
/// moves down, and only a live run moves it at all.
pub fn update_bob(bob: &mut Bob, camera_y: &mut i64, game_over: bool, dt: i64)
    requires
        old(bob).wf(),
        0 < dt <= DT_MAX_MS,
        0 <= *old(camera_y) <= POS_LIMIT,
    ensures
        final(bob).wf(),
        0 <= *final(camera_y) <= POS_LIMIT,
        *final(camera_y) >= *old(camera_y),
        bob_step_ok(*old(bob), *old(camera_y) as int, game_over, dt as int, *final(bob), *final(camera_y) as int),
{
    proof {
        assert(-480_000 <= GRAVITY_Y * dt < 0);
    }
    let vy1: i64 = add_clamped(bob.velocity_y, GRAVITY_Y * dt, VEL_LIMIT);
    bob.velocity_y = vy1;
    if game_over {
        if bob.velocity_y >= 0 {
            bob.velocity_y = 0;
        }
        if bob.y > *camera_y - SCREEN_HALF_HEIGHT {
            proof {
                assert(-1_000_000_000_000_000 <= bob.velocity_y * dt <= 1_000_000_000_000_000)
                    by (nonlinear_arith)
                    requires
                        -VEL_LIMIT <= bob.velocity_y <= VEL_LIMIT,
                        0 < dt <= DT_MAX_MS,
                ;
            }
            let dy: i64 = bob.velocity_y * dt;
            bob.y = add_clamped(bob.y, dy, POS_LIMIT);
        }
    } else {
        proof {
            assert(-250_000_000 <= bob.velocity_x * dt <= 250_000_000) by (nonlinear_arith)
                requires
                    bob.velocity_x == 0 || bob.velocity_x == BOB_MOVE_VELOCITY || bob.velocity_x
                        == -BOB_MOVE_VELOCITY,
                    0 < dt <= DT_MAX_MS,
            ;
            assert(-1_000_000_000_000_000 <= bob.velocity_y * dt <= 1_000_000_000_000_000)
                by (nonlinear_arith)
                requires
                    -VEL_LIMIT <= bob.velocity_y <= VEL_LIMIT,
                    0 < dt <= DT_MAX_MS,
            ;
        }
        let dx: i64 = bob.velocity_x * dt;
        let dy: i64 = bob.velocity_y * dt;
        bob.x = bob.x + dx;
        bob.y = add_clamped(bob.y, dy, POS_LIMIT);
        if bob.y < FLOOR_BOUNCE_Y {
            bob.velocity_y = BOB_JUMP_VELOCITY;
        }
        if bob.x < -WORLD_HALF_WIDTH {
            bob.x = bob.x + WORLD_WIDTH;
        } else if bob.x > WORLD_HALF_WIDTH {
            bob.x = bob.x - WORLD_WIDTH;
        }
        if bob.y > *camera_y {
            *camera_y = bob.y;
        }
    }
}

/// The fall-death test: the player has dropped one screen half-height below
/// the camera, and the camera has genuinely scrolled up from the start.
pub fn check_bob_has_fallen(bob: &Bob, camera_y: i64) -> (fallen: bool)
    requires
        bob.wf(),
        0 <= camera_y <= POS_LIMIT,
    ensures
        fallen == (bob.y <= camera_y - SCREEN_HALF_HEIGHT && camera_y > 0),
{
    bob.y <= camera_y - SCREEN_HALF_HEIGHT && camera_y > 0
}

/// The distance a patrolling object covers this tick, signed by direction.
pub open spec fn roam_delta(dir: int, dt: int) -> int {
    if dir == 1 {
        ROAM_VELOCITY_X * dt
    } else {
        -(ROAM_VELOCITY_X * dt)
    }
}

/// The direction after the walls are tested: past the right wall the object
/// turns left, past the left wall it turns right.
pub open spec fn turned_dir(x1: int, half_width: int, dir: int) -> int {
    if x1 + half_width > WORLD_HALF_WIDTH {
        -1
    } else if x1 - half_width < -WORLD_HALF_WIDTH {
        1
    } else {
        dir
    }
}

/// How one tick moves a platform: only a moving one patrols.
pub open spec fn platform_moved_ok(p: Platform, dt: int, q: Platform) -> bool {
    if p.moving {
        let x1 = p.x + roam_delta(p.dir as int, dt);
        &&& q.x == x1
        &&& q.dir == turned_dir(x1, PLATFORM_WIDTH / 2, p.dir as int)
        &&& q.y == p.y
        &&& q.moving == p.moving
        &&& q.state == p.state
    } else {
        q == p
    }
}

/// How one tick moves a squirrel.
pub open spec fn squirrel_moved_ok(s: Squirrel, dt: int, q: Squirrel) -> bool {
    let x1 = s.x + roam_delta(s.dir as int, dt);
    &&& q.x == x1
    &&& q.dir == turned_dir(x1, SQUIRREL_WIDTH / 2, s.dir as int)
    &&& q.y == s.y
}

/// How one tick moves a platform, as a value.
pub open spec fn platform_moved(p: Platform, dt: int) -> Platform {
    if p.moving {
        let x1 = p.x + roam_delta(p.dir as int, dt);
        Platform {
            x: x1 as i64,
            y: p.y,
            moving: p.moving,
            dir: turned_dir(x1, PLATFORM_WIDTH / 2, p.dir as int) as i64,
            state: p.state,
        }
    } else {
        p
    }
}

/// How one tick moves a squirrel, as a value.
pub open spec fn squirrel_moved(s: Squirrel, dt: int) -> Squirrel {
    let x1 = s.x + roam_delta(s.dir as int, dt);
    Squirrel { x: x1 as i64, y: s.y, dir: turned_dir(x1, SQUIRREL_WIDTH / 2, s.dir as int) as i64 }
}

/// Every platform of the list, one patrol step on.
pub open spec fn moved_platforms(ps: Seq<Platform>, dt: int) -> Seq<Platform> {
    ps.map_values(|p: Platform| platform_moved(p, dt))
}

/// Every squirrel of the list, one patrol step on.
pub open spec fn moved_squirrels(ss: Seq<Squirrel>, dt: int) -> Seq<Squirrel> {
    ss.map_values(|s: Squirrel| squirrel_moved(s, dt))
}

/// One patrol step: the new centre, and the direction after the wall test.
fn roam_step(x: i64, dir: i64, half_width: i64, dt: i64) -> (r: (i64, i64))
    requires
        roam_wf(x as int, dir as int),
        0 < dt <= DT_MAX_MS,
        0 < half_width <= PLATFORM_WIDTH / 2,
    ensures
        r.0 == x + roam_delta(dir as int, dt as int),
        r.1 == turned_dir(r.0 as int, half_width as int, dir as int),
        roam_wf(r.0 as int, r.1 as int),
{
    let delta: i64 = ROAM_VELOCITY_X * dt;
    let x1: i64 = if dir == 1 {
        x + delta
    } else {
        x - delta
    };
    let dir1: i64 = if x1 + half_width > WORLD_HALF_WIDTH {
        -1
    } else if x1 - half_width < -WORLD_HALF_WIDTH {
        1
    } else {
        dir
    };
    (x1, dir1)
}

/// Moves every moving platform and every squirrel one tick along its patrol,
/// turning at the walls.
pub fn move_objects(platforms: &mut Vec<Platform>, squirrels: &mut Vec<Squirrel>, dt: i64)
    requires
        0 < dt <= DT_MAX_MS,
        forall|i: int| 0 <= i < old(platforms)@.len() ==> (#[trigger] old(platforms)@[i]).wf(),
        forall|i: int| 0 <= i < old(squirrels)@.len() ==> (#[trigger] old(squirrels)@[i]).wf(),
    ensures
        final(platforms)@.len() == old(platforms)@.len(),
        final(squirrels)@.len() == old(squirrels)@.len(),
        forall|i: int| 0 <= i < old(platforms)@.len() ==> (#[trigger] final(platforms)@[i]).wf(),
        forall|i: int| 0 <= i < old(squirrels)@.len() ==> (#[trigger] final(squirrels)@[i]).wf(),
        forall|i: int|
            0 <= i < old(platforms)@.len() ==> platform_moved_ok(
                old(platforms)@[i],
                dt as int,
                #[trigger] final(platforms)@[i],
            ),
        forall|i: int|
            0 <= i < old(squirrels)@.len() ==> squirrel_moved_ok(
                old(squirrels)@[i],
                dt as int,
                #[trigger] final(squirrels)@[i],
            ),
        final(platforms)@ == moved_platforms(old(platforms)@, dt as int),
        final(squirrels)@ == moved_squirrels(old(squirrels)@, dt as int),
{
    let ghost plats0 = platforms@;
    let mut i: usize = 0;
    while i < platforms.len()
        invariant
            0 < dt <= DT_MAX_MS,
            0 <= i <= plats0.len(),
            platforms@.len() == plats0.len(),
            forall|j: int| 0 <= j < plats0.len() ==> (#[trigger] plats0[j]).wf(),
            forall|j: int| i <= j < plats0.len() ==> platforms@[j] == plats0[j],
            forall|j: int| 0 <= j < i ==> (#[trigger] platforms@[j]).wf(),
            forall|j: int|
                0 <= j < i ==> platform_moved_ok(plats0[j], dt as int, #[trigger] platforms@[j]),
        decreases plats0.len() - i,
    {
        let p = platforms[i];
        proof {
            assert(platforms@[i as int] == plats0[i as int]);
            assert(plats0[i as int].wf());
        }
        if p.moving {
            let (x1, dir1) = roam_step(p.x, p.dir, PLATFORM_WIDTH / 2, dt);
            platforms.set(
                i,
                Platform { x: x1, y: p.y, moving: p.moving, dir: dir1, state: p.state },
            );
            proof {
                assert(platforms@[i as int].wf());
            }
        }
        i = i + 1;
    }
    let ghost sqs0 = squirrels@;
    let mut k: usize = 0;
    while k < squirrels.len()
        invariant
            0 < dt <= DT_MAX_MS,
            0 <= k <= sqs0.len(),
            squirrels@.len() == sqs0.len(),
            forall|j: int| 0 <= j < sqs0.len() ==> (#[trigger] sqs0[j]).wf(),
            forall|j: int| k <= j < sqs0.len() ==> squirrels@[j] == sqs0[j],
            forall|j: int| 0 <= j < k ==> (#[trigger] squirrels@[j]).wf(),
            forall|j: int|
                0 <= j < k ==> squirrel_moved_ok(sqs0[j], dt as int, #[trigger] squirrels@[j]),
        decreases sqs0.len() - k,
    {
        let s = squirrels[k];
        proof {
            assert(squirrels@[k as int] == sqs0[k as int]);
            assert(sqs0[k as int].wf());
        }
        let (x1, dir1) = roam_step(s.x, s.dir, SQUIRREL_WIDTH / 2, dt);
        squirrels.set(k, Squirrel { x: x1, y: s.y, dir: dir1 });
        proof {
            assert(squirrels@[k as int].wf());
        }
        k = k + 1;
    }
    proof {
        assert forall|i: int| 0 <= i < plats0.len() implies #[trigger] platforms@[i]
            == platform_moved(plats0[i], dt as int) by {
            let q = platforms@[i];
            let m = platform_moved(plats0[i], dt as int);
            assert(q.x == m.x && q.y == m.y && q.moving == m.moving && q.dir == m.dir && q.state
                == m.state);
        }
        assert(platforms@ =~= moved_platforms(plats0, dt as int));
        assert forall|i: int| 0 <= i < sqs0.len() implies #[trigger] squirrels@[i]
            == squirrel_moved(sqs0[i], dt as int) by {
            let q = squirrels@[i];
            let m = squirrel_moved(sqs0[i], dt as int);
            assert(q.x == m.x && q.y == m.y && q.dir == m.dir);
        }
        assert(squirrels@ =~= moved_squirrels(sqs0, dt as int));
    }
}

} // verus!
