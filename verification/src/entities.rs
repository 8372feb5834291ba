//! The live entities of a run: the player character, platforms, coins,
//! springs, squirrels and the castle, in live world coordinates (the camera
//! starts at zero and the screen spans one half-height either side of it).

use vstd::prelude::*;
use crate::world::{
    BOB_MOVE_VELOCITY, POS_LIMIT, SPRING_JUMP_VELOCITY, VEL_LIMIT, WORLD_HALF_WIDTH,
};

verus! {

/// Running ticks a pulverizing platform survives before it is removed.
pub const PULVERIZE_TICKS: u32 = 18;

/// A patrolling object never strays further from the centre than this.
pub const X_ROAM_LIMIT: i64 = 300_000_000;

/// A patrolling object moving away from a wall it has cleared stays within
/// this bound until the turn test runs again.
pub const X_TURN_LIMIT: i64 = 200_000_000;

/// The player character: centre position and velocity.
pub struct Bob {
    pub x: i64,
    pub y: i64,
    pub velocity_x: i64,
    pub velocity_y: i64,
}

impl Bob {
    /// Inside the wrapped horizontal world, vertical position in numeric
    /// range, horizontal velocity one of the three the input model sets, and
    /// vertical velocity never above a spring bounce.
    pub open spec fn wf(&self) -> bool {
        &&& -WORLD_HALF_WIDTH <= self.x <= WORLD_HALF_WIDTH
        &&& -POS_LIMIT <= self.y <= POS_LIMIT
        &&& (self.velocity_x == 0 || self.velocity_x == BOB_MOVE_VELOCITY || self.velocity_x
            == -BOB_MOVE_VELOCITY)
        &&& -VEL_LIMIT <= self.velocity_y <= SPRING_JUMP_VELOCITY
    }

    /// The player as a run starts: one tile above the bottom of the screen,
    /// at rest.
    pub fn at_start() -> (b: Bob)
        ensures
            b.wf(),
            b.x == 0 && b.y == -208_000_000 && b.velocity_x == 0 && b.velocity_y == 0,
    {
        Bob { x: 0, y: -208_000_000, velocity_x: 0, velocity_y: 0 }
    }
}

/// A horizontally patrolling object: its centre and current direction.
pub open spec fn roam_wf(x: int, dir: int) -> bool {
    &&& dir == 1 || dir == -1
    &&& -X_ROAM_LIMIT <= x <= X_ROAM_LIMIT
    &&& dir == 1 ==> x <= X_TURN_LIMIT
    &&& dir == -1 ==> x >= -X_TURN_LIMIT
}

/// What a live platform is doing: standing, or running its destruction
/// countdown (the running ticks left before it is removed).
#[derive(Clone, Copy, PartialEq, Eq, Structural, Debug)]
pub enum PlatformState {
    Normal,
    Pulverizing(u32),
}

/// A live platform; a moving one patrols between the walls.
#[derive(Clone, Copy)]
pub struct Platform {
    pub x: i64,
    pub y: i64,
    pub moving: bool,
    pub dir: i64,
    pub state: PlatformState,
}

impl Platform {
    pub open spec fn wf(&self) -> bool {
        &&& roam_wf(self.x as int, self.dir as int)
        &&& -POS_LIMIT <= self.y <= POS_LIMIT
        &&& match self.state {
            PlatformState::Normal => true,
            PlatformState::Pulverizing(k) => 1 <= k <= PULVERIZE_TICKS,
        }
    }
}

/// A live coin.
#[derive(Clone, Copy)]
pub struct Coin {
    pub x: i64,
    pub y: i64,
}

impl Coin {
    pub open spec fn wf(&self) -> bool {
        -X_ROAM_LIMIT <= self.x <= X_ROAM_LIMIT && -POS_LIMIT <= self.y <= POS_LIMIT
    }
}

/// A live spring; stateless and reusable.
#[derive(Clone, Copy)]
pub struct Spring {
    pub x: i64,
    pub y: i64,
}

impl Spring {
    pub open spec fn wf(&self) -> bool {
        -X_ROAM_LIMIT <= self.x <= X_ROAM_LIMIT && -POS_LIMIT <= self.y <= POS_LIMIT
    }
}

/// A live squirrel: a patrolling hazard.
#[derive(Clone, Copy)]
pub struct Squirrel {
    pub x: i64,
    pub y: i64,
    pub dir: i64,
}

impl Squirrel {
    pub open spec fn wf(&self) -> bool {
        roam_wf(self.x as int, self.dir as int) && -POS_LIMIT <= self.y <= POS_LIMIT
    }
}

/// The live castle: reaching it wins the run.
#[derive(Clone, Copy)]
pub struct Castle {
    pub x: i64,
    pub y: i64,
}

impl Castle {
    pub open spec fn wf(&self) -> bool {
        -X_ROAM_LIMIT <= self.x <= X_ROAM_LIMIT && -POS_LIMIT <= self.y <= POS_LIMIT
    }
}

} // verus!
