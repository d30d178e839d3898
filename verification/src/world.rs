//! The playing field and the places on it.

use crate::rng::gen_range;
use vstd::prelude::*;

verus! {

/// Width of the game window, which is also the width of the playing field.
pub const WINDOW_WIDTH: u32 = 800;

/// Height of the game window, which is also the height of the playing field.
pub const WINDOW_HEIGHT: u32 = 400;

/// The number of asteroids on the field when the game starts.
pub const ASTEROID_COUNT: u32 = 5;

/// The health points, current and maximal, that the player's ship starts with.
pub const PLAYER_HEALTH: u32 = 1000;

/// The health points, current and maximal, that an asteroid starts with.
pub const ASTEROID_HEALTH: u32 = 500;

/// The health points, current and maximal, of a bullet: the first hit ends it.
pub const BULLET_HEALTH: u32 = 1;

/// Size of the playing field. Its centre is the origin.
#[derive(Clone, Copy, Debug, PartialEq, Eq, Structural)]
pub struct WorldBorders {
    pub width: u32,
    pub height: u32,
}

impl Default for WorldBorders {
    /// A field as large as the game window.
    fn default() -> (borders: Self)
        ensures
            borders.width == WINDOW_WIDTH,
            borders.height == WINDOW_HEIGHT,
    {
        WorldBorders { width: WINDOW_WIDTH, height: WINDOW_HEIGHT }
    }
}

/// Half of `extent`, the distance from the origin to a border.
pub open spec fn half(extent: u32) -> int {
    extent as int / 2
}

/// Whether a side of this length has room for a random coordinate: it is
/// at least 2 long, so that its half is at least 1.
pub open spec fn has_room(extent: u32) -> bool {
    2 <= extent
}

/// The coordinates across a side of the field, as a half-open range: from
/// minus half its length up to, but not including, half its length.
pub fn coordinate_range(extent: u32) -> (range: (i32, i32))
    requires
        has_room(extent),
    ensures
        range.0 == -half(extent),
        range.1 == half(extent),
{
    let half_extent: i32 = (extent / 2) as i32;
    (-half_extent, half_extent)
}

/// Picks a random point with integer coordinates on a field of the given
/// size: `x` from `-width/2` up to but not including `width/2`, and `y`
/// likewise from the height.
pub fn random_point(width: u32, height: u32) -> (point: (i32, i32))
    requires
        has_room(width),
        has_room(height),
    ensures
        -half(width) <= point.0 < half(width),
        -half(height) <= point.1 < half(height),
{
    let across = coordinate_range(width);
    let along = coordinate_range(height);
    let x: i32 = gen_range(across.0, across.1);
    let y: i32 = gen_range(along.0, along.1);
    (x, y)
}

/// Picks a random point as `random_point` does where both sides of the
/// field have room for a coordinate, and returns `None` where one has not.
pub fn checked_random_point(width: u32, height: u32) -> (point: Option<(i32, i32)>)
    ensures
        point.is_some() == (has_room(width) && has_room(height)),
        point matches Some(at) ==> -half(width) <= at.0 < half(width) && -half(height) <= at.1
            < half(height),
{
    if 2 <= width && 2 <= height {
        Some(random_point(width, height))
    } else {
        None
    }
}

} // verus!
