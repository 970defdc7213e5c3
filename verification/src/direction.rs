//! Compass directions for the board module, with their coordinate
//! deltas.

use vstd::prelude::*;

verus! {

#[derive(Clone, Copy, Debug, PartialEq, Eq, Structural, Hash)]
pub enum Direction {
    North,
    South,
    East,
    West,
}

/// The row delta of a move in `dir`.
pub fn xdelta(dir: Direction) -> (r: i8)
    ensures
        r == spec_xdelta(dir),
{
    match dir {
        Direction::East => 1,
        Direction::West => -1,
        Direction::North => 0,
        Direction::South => 0,
    }
}

pub open spec fn spec_xdelta(dir: Direction) -> int {
    match dir {
        Direction::East => 1,
        Direction::West => -1,
        Direction::North => 0,
        Direction::South => 0,
    }
}

/// The column delta of a move in `dir`.
pub fn ydelta(dir: Direction) -> (r: i8)
    ensures
        r == spec_ydelta(dir),
{
    match dir {
        Direction::East => 0,
        Direction::West => 0,
        Direction::North => -1,
        Direction::South => 1,
    }
}

pub open spec fn spec_ydelta(dir: Direction) -> int {
    match dir {
        Direction::East => 0,
        Direction::West => 0,
        Direction::North => -1,
        Direction::South => 1,
    }
}

} // verus!
