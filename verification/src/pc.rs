//! The program counter: a raw offset into memory with sequential fetch of
//! bytes and big-endian words.

use vstd::prelude::*;

use crate::memory::{word_at, Memory};
use crate::ptrs::RawPtr;

verus! {

pub struct PC {
    pc: RawPtr,
}

impl PC {
    /// The current raw offset.
    pub closed spec fn spec_pc(&self) -> int {
        self.pc.raw()
    }

    pub fn new(p: RawPtr) -> (r: PC)
        ensures
            r.spec_pc() == p.raw(),
    {
        PC { pc: p }
    }

    /// The current position.
    pub fn pc(&self) -> (r: RawPtr)
        ensures
            r.raw() == self.spec_pc(),
    {
        self.pc
    }

    /// Move to `p`.
    pub fn set_pc(&mut self, p: RawPtr)
        ensures
            final(self).spec_pc() == p.raw(),
    {
        self.pc = p;
    }

    /// Move to the plain offset `p`.
    pub fn set_raw_pc(&mut self, p: usize)
        ensures
            final(self).spec_pc() == p,
    {
        self.pc = RawPtr::new(p);
    }

    /// Fetch the byte under the PC and advance past it.
    pub fn next_byte(&mut self, memory: &Memory) -> (r: u8)
        requires
            old(self).spec_pc() + 1 <= memory@.len(),
        ensures
            r == memory@[old(self).spec_pc()],
            final(self).spec_pc() == old(self).spec_pc() + 1,
    {
        let n = memory.size();
        let result = memory.u8_at(self.pc);
        self.pc.inc_by(1);
        result
    }

    /// Fetch the big-endian word under the PC and advance past it.
    pub fn next_word(&mut self, memory: &Memory) -> (r: u16)
        requires
            old(self).spec_pc() + 2 <= memory@.len(),
        ensures
            r == word_at(memory@, old(self).spec_pc()),
            final(self).spec_pc() == old(self).spec_pc() + 2,
    {
        let n = memory.size();
        let result = memory.u16_at(self.pc);
        self.pc.inc_by(2);
        result
    }
}

} // verus!
