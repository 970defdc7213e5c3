//! The dictionary: a read-only table of sorted entries used by the input
//! tokenizer.  After a separator sub-table come the per-entry size, the
//! entry count, and the entries themselves, each keyed by its encoded
//! text.

use vstd::prelude::*;

use crate::memory::{word_at, Memory, DICTIONARY_INDEX};
use crate::ptrs::BytePtr;
use crate::result::{Error, ZResult};

verus! {

/// The dictionary's layout, read once from the header at load.
pub struct Dictionary {
    separators: Vec<u8>,
    entry_length: u8,
    num_entries: u16,
    entries_ptr: BytePtr,
}

impl Dictionary {
    pub closed spec fn spec_entry_length(&self) -> u8 {
        self.entry_length
    }

    pub closed spec fn spec_num_entries(&self) -> u16 {
        self.num_entries
    }

    pub closed spec fn spec_entries_ptr(&self) -> int {
        self.entries_ptr.raw()
    }

    /// The raw offset where the entry sub-table begins in image `m`: the
    /// dictionary base, one byte for the separator count, the separator
    /// bytes, the entry-size byte, and the entry-count word.
    pub open spec fn spec_entries_base(m: Seq<u8>) -> int {
        let base = word_at(m, DICTIONARY_INDEX as int);
        base + 1 + m[base] + 3
    }

    /// Whether the dictionary header of `m` can be parsed: the base and
    /// the fields after the separator sub-table lie inside the image, and
    /// the entries begin within the 16-bit address space.
    pub open spec fn parse_ok(m: Seq<u8>) -> bool {
        let base = word_at(m, DICTIONARY_INDEX as int);
        &&& base < m.len()
        &&& base + 1 + m[base] + 3 <= m.len()
        &&& Dictionary::spec_entries_base(m) <= 0xffff
    }

    /// Parse the dictionary header of `memory`.
    pub fn new(memory: &Memory) -> (r: ZResult<Dictionary>)
        requires
            memory@.len() >= 64,
        ensures
            r.is_ok() == Dictionary::parse_ok(memory@),
            match r {
                Ok(d) => {
                    let base = word_at(memory@, DICTIONARY_INDEX as int);
                    &&& d.spec_entries_ptr() == Dictionary::spec_entries_base(memory@)
                    &&& d.spec_entry_length() == memory@[base + 1 + memory@[base]]
                    &&& d.spec_num_entries() == word_at(memory@, base + 2 + memory@[base])
                    &&& d.spec_entries_ptr() <= 0xffff
                },
                Err(e) => e == Error::Fatal,
            },
    {
        let len = memory.size();
        let base = memory.dictionary_table_ptr().to_raw().ptr();
        if base >= len {
            return Err(Error::Fatal);
        }
        let num_separators = memory.u8_at_index(base);
        let p = base + 1 + num_separators as usize;
        if p + 3 > len {
            return Err(Error::Fatal);
        }
        let entry_length = memory.u8_at_index(p);
        let num_entries = memory.u16_at_index(p + 1);
        let entries = p + 3;
        if entries > 0xffff {
            return Err(Error::Fatal);
        }
        Ok(
            Dictionary {
                separators: Vec::new(),
                entry_length,
                num_entries,
                entries_ptr: BytePtr::new(entries as u16),
            },
        )
    }

    /// How many entries the dictionary holds.
    pub fn num_entries(&self) -> (r: u16)
        ensures
            r == self.spec_num_entries(),
    {
        self.num_entries
    }

    /// The address of entry `i` (1-based): entries are laid out
    /// contiguously, `entry_length` bytes each.  An entry beyond the
    /// 16-bit address space is fatal.
    pub fn entry_ptr(&self, i: u16) -> (r: ZResult<BytePtr>)
        requires
            1 <= i,
        ensures
            r.is_ok() == (self.spec_entries_ptr() + self.spec_entry_length() * (i - 1) <= 0xffff),
            match r {
                Ok(p) => p.raw() == self.spec_entries_ptr() + self.spec_entry_length() * (i - 1)
                    && p.raw() <= 0xffff,
                Err(e) => e == Error::Fatal,
            },
    {
        proof {
            vstd::arithmetic::mul::lemma_mul_upper_bound(
                self.entry_length as int,
                255,
                i - 1,
                65534,
            );
        }
        let off: usize = self.entries_ptr.to_raw().ptr() + self.entry_length as usize * (i as usize
            - 1);
        if off > 0xffff {
            return Err(Error::Fatal);
        }
        Ok(BytePtr::new(off as u16))
    }
}

} // verus!
