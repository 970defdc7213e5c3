//! A read-only view of the story-file header.

use vstd::prelude::*;

use crate::memory::{word_at, Memory, STARTING_PC_INDEX};

verus! {

/// The header of a loaded image, borrowed from its memory.
pub struct Header<'a> {
    pub memory: &'a Memory,
}

impl<'a> Header<'a> {
    pub fn new(memory: &'a Memory) -> (r: Header<'a>)
        ensures
            r.memory@ == memory@,
    {
        Header { memory }
    }

    /// The program counter at which execution starts.
    pub fn starting_pc(&self) -> (r: usize)
        requires
            self.memory@.len() >= 64,
        ensures
            r == word_at(self.memory@, STARTING_PC_INDEX as int),
    {
        self.memory.u16_at_index(STARTING_PC_INDEX) as usize
    }
}

} // verus!
