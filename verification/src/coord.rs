//! A board coordinate: a row and column pair.

use vstd::prelude::*;

use crate::direction::{spec_xdelta, spec_ydelta, xdelta, ydelta, Direction};

verus! {

#[derive(Clone, Copy, Debug, PartialEq, Eq, Structural, Hash)]
pub struct Coord {
    pub row: i8,
    pub col: i8,
}

impl Coord {
    pub fn new(row: i8, col: i8) -> (r: Coord)
        ensures
            r.row == row,
            r.col == col,
    {
        Coord { row, col }
    }

    /// The neighbouring coordinate one step in `dir`.
    pub fn in_direction(&self, dir: Direction) -> (r: Coord)
        requires
            i8::MIN <= self.row + spec_xdelta(dir) <= i8::MAX,
            i8::MIN <= self.col + spec_ydelta(dir) <= i8::MAX,
        ensures
            r.row == self.row + spec_xdelta(dir),
            r.col == self.col + spec_ydelta(dir),
    {
        Coord::new(self.row + xdelta(dir), self.col + ydelta(dir))
    }
}

} // verus!
