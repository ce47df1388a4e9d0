//! Grid coordinates and facings.

use vstd::prelude::*;

verus! {

/// A grid coordinate. Equality is exact integer equality; a tile's position
/// never changes in place (tiles are repositioned only by replacement).
#[derive(Clone, Copy, Debug, PartialEq, Eq, Structural)]
pub struct GamePos {
    pub x: i64,
    pub y: i64,
}

impl GamePos {
    pub fn new(x: i64, y: i64) -> (r: GamePos)
        ensures
            r == (GamePos { x, y }),
    {
        GamePos { x, y }
    }
}

/// A facing, used to select animation frame-sets and to parameterize tile
/// construction (for example, which way an edge faces).
#[derive(Clone, Copy, Debug, PartialEq, Eq, Structural)]
pub enum Direction {
    Up,
    Down,
    Left,
    Right,
}

/// The animation key a facing selects: each direction addresses its own
/// frame-set in a tile's registry.
pub open spec fn spec_anim_key(d: Direction) -> u64 {
    match d {
        Direction::Up => 1,
        Direction::Down => 2,
        Direction::Left => 3,
        Direction::Right => 4,
    }
}

impl Direction {
    /// The animation key this facing selects.
    pub fn anim_key(self) -> (r: u64)
        ensures
            r == spec_anim_key(self),
    {
        match self {
            Direction::Up => 1,
            Direction::Down => 2,
            Direction::Left => 3,
            Direction::Right => 4,
        }
    }
}

/// Orientation of a tile within a larger structure; `Center` is the default
/// used by variants that have no orientation of their own.
#[derive(Clone, Copy, Debug, PartialEq, Eq, Structural)]
pub enum TileVariant {
    Center,
    Top,
    Bottom,
    Left,
    Right,
}

} // verus!
