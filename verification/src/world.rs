//! World units, design constants, saturating coordinate arithmetic and the
//! axis-aligned bounding-box overlap test that every collision rule uses.
//!
//! Positions are in micro-units (`UNIT` micro-units to a world unit) and
//! velocities in milli-units per second, so that over a step of `dt`
//! milliseconds `position += velocity * dt` and `velocity += gravity * dt`
//! are exact integer computations.

use vstd::prelude::*;

verus! {

/// Micro-units in one world unit (positions).
pub const UNIT: i64 = 1_000_000;

/// Milli-units per second in one unit per second (velocities).
pub const VUNIT: i64 = 1_000;

/// Longest simulation step, in milliseconds.
pub const DT_MAX_MS: i64 = 1_000;

/// Positions are confined to this range; updates saturate at its edges,
/// which lie far beyond anything a run can reach.
pub const POS_LIMIT: i64 = 1_000_000_000_000_000;

/// Velocities are confined to this range (a terminal velocity, far beyond
/// anything a run can reach); updates saturate at its edges.
pub const VEL_LIMIT: i64 = 1_000_000_000_000;

/// The world is 320 units wide, centred at zero: live x spans [-160, 160].
pub const WORLD_HALF_WIDTH: i64 = 160_000_000;

/// Full world width in micro-units.
pub const WORLD_WIDTH: i64 = 320_000_000;

/// Total height of one generated level, in micro-units (9600 units).
pub const WORLD_HEIGHT: i64 = 9_600_000_000;

/// Half the visible screen height, in micro-units (240 units).
pub const SCREEN_HALF_HEIGHT: i64 = 240_000_000;

/// Gravity, in units per second per second (negative: downward).
pub const GRAVITY_Y: i64 = -480;

/// Vertical velocity set by a platform bounce, in milli-units per second.
pub const BOB_JUMP_VELOCITY: i64 = 400_000;

/// Vertical velocity set by a spring: one and a half platform bounces.
pub const SPRING_JUMP_VELOCITY: i64 = 600_000;

/// Horizontal speed while a direction key is held (half the design move
/// speed of 500 units per second), in milli-units per second.
pub const BOB_MOVE_VELOCITY: i64 = 250_000;

/// Horizontal speed of moving platforms and squirrels, milli-units per second.
pub const ROAM_VELOCITY_X: i64 = 60_000;

/// Player bounding box, micro-units.
pub const BOB_WIDTH: i64 = 32_000_000;
pub const BOB_HEIGHT: i64 = 32_000_000;

/// Platform bounding box, micro-units.
pub const PLATFORM_WIDTH: i64 = 64_000_000;
pub const PLATFORM_HEIGHT: i64 = 16_000_000;

/// Coin bounding box (half a tile each way), micro-units.
pub const COIN_WIDTH: i64 = 16_000_000;
pub const COIN_HEIGHT_BOX: i64 = 16_000_000;

/// Vertical offset of a generated coin above its platform (0.8 tile).
pub const COIN_RISE: i64 = 25_600_000;

/// Spring bounding box, micro-units.
pub const SPRING_WIDTH: i64 = 32_000_000;
pub const SPRING_HEIGHT_BOX: i64 = 32_000_000;

/// Height of the spring sprite used when placing it on a platform (0.3 tile).
pub const SPRING_RISE: i64 = 9_600_000;

/// Squirrel bounding box, micro-units (a 0.6-tile-high hazard).
pub const SQUIRREL_WIDTH: i64 = 32_000_000;
pub const SQUIRREL_HEIGHT: i64 = 19_200_000;

/// Castle bounding box, micro-units.
pub const CASTLE_WIDTH: i64 = 64_000_000;
pub const CASTLE_HEIGHT: i64 = 64_000_000;

/// Random draws are uniform fractions in [0, DRAW_RANGE), parts per million.
pub const DRAW_RANGE: u32 = 1_000_000;

/// Greatest height a jump from a platform can gain:
/// jump_velocity^2 / (2 * |gravity|), rounded down to a micro-unit.
pub const MAX_JUMP_HEIGHT: i64 = 166_666_666;

/// Base vertical advance between consecutive platforms (max jump minus half
/// a tile), micro-units.
pub const STEP_BASE: i64 = 150_666_666;

/// Largest random reduction of the advance (a third of the max jump).
pub const STEP_JITTER: i64 = 55_555_555;

/// Clamp an integer into [-limit, limit].
pub open spec fn clamped(v: int, limit: int) -> int {
    if v > limit {
        limit
    } else if v < -limit {
        -limit
    } else {
        v
    }
}

/// Saturating addition within [-limit, limit].
pub fn add_clamped(a: i64, b: i64, limit: i64) -> (r: i64)
    requires
        0 < limit <= 2_000_000_000_000_000,
        -limit <= a <= limit,
        -2_000_000_000_000_000 <= b <= 2_000_000_000_000_000,
    ensures
        r == clamped(a + b, limit as int),
{
    let s: i64 = a + b;
    if s > limit {
        limit
    } else if s < -limit {
        -limit
    } else {
        s
    }
}

/// Two axis-aligned rectangles, each given by its centre and full size,
/// overlap iff they are strictly closer than the sum of their half-sizes on
/// both axes; exact touching counts as no collision.
pub open spec fn overlaps(
    ax: int,
    ay: int,
    aw: int,
    ah: int,
    bx: int,
    by: int,
    bw: int,
    bh: int,
) -> bool {
    let dx = if ax >= bx {
        ax - bx
    } else {
        bx - ax
    };
    let dy = if ay >= by {
        ay - by
    } else {
        by - ay
    };
    2 * dx < aw + bw && 2 * dy < ah + bh
}

/// Runtime AABB overlap test, exact against `overlaps`.
pub fn collide(ax: i64, ay: i64, aw: i64, ah: i64, bx: i64, by: i64, bw: i64, bh: i64) -> (r: bool)
    requires
        -2_000_000_000_000_000 <= ax <= 2_000_000_000_000_000,
        -2_000_000_000_000_000 <= ay <= 2_000_000_000_000_000,
        -2_000_000_000_000_000 <= bx <= 2_000_000_000_000_000,
        -2_000_000_000_000_000 <= by <= 2_000_000_000_000_000,
        0 <= aw <= 1_000_000_000,
        0 <= ah <= 1_000_000_000,
        0 <= bw <= 1_000_000_000,
        0 <= bh <= 1_000_000_000,
    ensures
        r == overlaps(ax as int, ay as int, aw as int, ah as int, bx as int, by as int, bw as int, bh as int),
{
    let dx: i64 = if ax >= bx {
        ax - bx
    } else {
        bx - ax
    };
    let dy: i64 = if ay >= by {
        ay - by
    } else {
        by - ay
    };
    dx + dx < aw + bw && dy + dy < ah + bh
}

} // verus!
