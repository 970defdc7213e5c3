//! The byte image of a story file: a byte-addressable array with big-endian
//! word accessors, the header fields the interpreter reads, the global
//! variable table, and the snapshot of the image taken at load so that
//! `restart` can restore dynamic memory.
//!
//! Writes are permitted only below the static-memory base: the dynamic
//! region is read/write, while static and high memory are read-only at
//! runtime.  For an image too small to carry a header, the whole image
//! counts as dynamic, so that small scratch images remain fully writable.

use vstd::prelude::*;

use crate::ptrs::{BytePtr, RawPtr};

verus! {

pub const FLAG1_INDEX: usize = 0x01;
pub const STARTING_PC_INDEX: usize = 0x06;
pub const DICTIONARY_INDEX: usize = 0x08;
pub const PROPERTY_TABLE_INDEX: usize = 0x0a;
pub const GLOBAL_TABLE_INDEX: usize = 0x0c;
pub const STATIC_BASE_INDEX: usize = 0x0e;
pub const ABBREV_TABLE_INDEX: usize = 0x18;
pub const FILE_LENGTH_INDEX: usize = 0x1a;

/// The big-endian 16-bit value formed from two bytes.
pub open spec fn be16(hi: u8, lo: u8) -> int {
    hi * 256 + lo
}

/// The big-endian word at offset `i` of `b`.
pub open spec fn word_at(b: Seq<u8>, i: int) -> int {
    be16(b[i], b[i + 1])
}

/// The big-endian 32-bit value at offset `i` of `b`.
pub open spec fn dword_at(b: Seq<u8>, i: int) -> int {
    b[i] * 0x1000000 + b[i + 1] * 0x10000 + b[i + 2] * 0x100 + b[i + 3]
}

/// The static-memory base recorded in the image `b`: the header word at
/// 0x0e, clamped so that the header itself is never writable and the base
/// never exceeds the image.  An image too small for a header is entirely
/// dynamic.
pub open spec fn spec_static_base(b: Seq<u8>) -> int {
    if b.len() < 64 {
        b.len() as int
    } else if word_at(b, STATIC_BASE_INDEX as int) < 64 {
        64
    } else if word_at(b, STATIC_BASE_INDEX as int) > b.len() {
        b.len() as int
    } else {
        word_at(b, STATIC_BASE_INDEX as int)
    }
}

/// The loaded byte image.  `snap` is the untouched copy taken at load;
/// `restore_dynamic_bytes` copies its dynamic region back.
pub struct Memory {
    bytes: Vec<u8>,
    snap: Vec<u8>,
    static_base: usize,
}

impl View for Memory {
    type V = Seq<u8>;

    closed spec fn view(&self) -> Seq<u8> {
        self.bytes@
    }
}

impl Memory {
    /// The image as loaded, before any write.
    pub closed spec fn snapshot(&self) -> Seq<u8> {
        self.snap@
    }

    /// The first byte offset that is no longer writable.
    pub closed spec fn sbase(&self) -> int {
        self.static_base as int
    }

    /// Well-formedness: the snapshot matches the live image in length and
    /// in the whole read-only region, and the static base is the one the
    /// snapshot records.
    pub closed spec fn wf(&self) -> bool {
        &&& self.snap@.len() == self.bytes@.len()
        &&& self.static_base as int == spec_static_base(self.snap@)
        &&& forall|i: int|
            self.static_base <= i < self.bytes@.len() ==> self.bytes@[i] == self.snap@[i]
    }

    pub fn new(bytes: Vec<u8>) -> (r: Memory)
        ensures
            r.wf(),
            r@ == bytes@,
            r.snapshot() == bytes@,
    {
        let static_base = Memory::read_static_base(&bytes);
        let snap = bytes.clone();
        assert(snap@ =~= bytes@);
        Memory { bytes, snap, static_base }
    }

    fn read_static_base(bytes: &Vec<u8>) -> (r: usize)
        ensures
            r == spec_static_base(bytes@),
    {
        if bytes.len() < 64 {
            bytes.len()
        } else {
            let w: usize = bytes[STATIC_BASE_INDEX] as usize * 256 + bytes[STATIC_BASE_INDEX
                + 1] as usize;
            if w < 64 {
                64
            } else if w > bytes.len() {
                bytes.len()
            } else {
                w
            }
        }
    }

    /// The number of bytes in the image.
    pub fn size(&self) -> (r: usize)
        ensures
            r == self@.len(),
    {
        self.bytes.len()
    }

    /// The static-memory base: writes at or above this offset are refused.
    pub fn static_base(&self) -> (r: usize)
        ensures
            r == self.sbase(),
    {
        self.static_base
    }

    pub fn u8_at_index(&self, index: usize) -> (r: u8)
        requires
            index < self@.len(),
        ensures
            r == self@[index as int],
    {
        self.bytes[index]
    }

    pub fn set_index_to_u8(&mut self, index: usize, val: u8)
        requires
            old(self).wf(),
            index < old(self).sbase(),
        ensures
            final(self).wf(),
            final(self)@ == old(self)@.update(index as int, val),
            final(self).snapshot() == old(self).snapshot(),
            final(self).sbase() == old(self).sbase(),
    {
        self.bytes.set(index, val);
    }

    pub fn u16_at_index(&self, index: usize) -> (r: u16)
        requires
            index + 2 <= self@.len(),
        ensures
            r == word_at(self@, index as int),
    {
        let n = self.bytes.len();
        assert(index + 2 <= n);
        self.bytes[index] as u16 * 256 + self.bytes[index + 1] as u16
    }

    pub fn set_u16_at_index(&mut self, index: usize, val: u16)
        requires
            old(self).wf(),
            index + 2 <= old(self).sbase(),
        ensures
            final(self).wf(),
            final(self)@ == old(self)@.update(index as int, (val / 256) as u8).update(
                index + 1,
                (val % 256) as u8,
            ),
            word_at(final(self)@, index as int) == val,
            final(self).snapshot() == old(self).snapshot(),
            final(self).sbase() == old(self).sbase(),
    {
        self.bytes.set(index, (val / 256) as u8);
        self.bytes.set(index + 1, (val % 256) as u8);
    }

    pub fn u32_at_index(&self, index: usize) -> (r: u32)
        requires
            index + 4 <= self@.len(),
        ensures
            r == dword_at(self@, index as int),
    {
        let n = self.bytes.len();
        assert(index + 4 <= n);
        self.bytes[index] as u32 * 0x1000000 + self.bytes[index + 1] as u32 * 0x10000
            + self.bytes[index + 2] as u32 * 0x100 + self.bytes[index + 3] as u32
    }

    pub fn set_u32_at_index(&mut self, index: usize, val: u32)
        requires
            old(self).wf(),
            index + 4 <= old(self).sbase(),
        ensures
            final(self).wf(),
            final(self)@.len() == old(self)@.len(),
            dword_at(final(self)@, index as int) == val,
            forall|i: int|
                0 <= i < old(self)@.len() && !(index <= i < index + 4)
                    ==> final(self)@[i] == old(self)@[i],
            final(self).snapshot() == old(self).snapshot(),
            final(self).sbase() == old(self).sbase(),
    {
        self.bytes.set(index, (val / 0x1000000) as u8);
        self.bytes.set(index + 1, ((val / 0x10000) % 0x100) as u8);
        self.bytes.set(index + 2, ((val / 0x100) % 0x100) as u8);
        self.bytes.set(index + 3, (val % 0x100) as u8);
    }

    pub fn u8_at(&self, ptr: RawPtr) -> (r: u8)
        requires
            ptr.raw() < self@.len(),
        ensures
            r == self@[ptr.raw()],
    {
        self.u8_at_index(ptr.ptr())
    }

    pub fn set_u8_at(&mut self, val: u8, ptr: RawPtr)
        requires
            old(self).wf(),
            ptr.raw() < old(self).sbase(),
        ensures
            final(self).wf(),
            final(self)@ == old(self)@.update(ptr.raw(), val),
            final(self).snapshot() == old(self).snapshot(),
            final(self).sbase() == old(self).sbase(),
    {
        self.set_index_to_u8(ptr.ptr(), val)
    }

    pub fn u16_at(&self, ptr: RawPtr) -> (r: u16)
        requires
            ptr.raw() + 2 <= self@.len(),
        ensures
            r == word_at(self@, ptr.raw()),
    {
        self.u16_at_index(ptr.ptr())
    }

    pub fn set_u16_at(&mut self, val: u16, ptr: RawPtr)
        requires
            old(self).wf(),
            ptr.raw() + 2 <= old(self).sbase(),
        ensures
            final(self).wf(),
            final(self)@ == old(self)@.update(ptr.raw(), (val / 256) as u8).update(
                ptr.raw() + 1,
                (val % 256) as u8,
            ),
            word_at(final(self)@, ptr.raw()) == val,
            final(self).snapshot() == old(self).snapshot(),
            final(self).sbase() == old(self).sbase(),
    {
        self.set_u16_at_index(ptr.ptr(), val)
    }

    pub fn u32_at(&self, ptr: RawPtr) -> (r: u32)
        requires
            ptr.raw() + 4 <= self@.len(),
        ensures
            r == dword_at(self@, ptr.raw()),
    {
        self.u32_at_index(ptr.ptr())
    }

    pub fn set_u32_at(&mut self, ptr: RawPtr, val: u32)
        requires
            old(self).wf(),
            ptr.raw() + 4 <= old(self).sbase(),
        ensures
            final(self).wf(),
            final(self)@.len() == old(self)@.len(),
            dword_at(final(self)@, ptr.raw()) == val,
            forall|i: int|
                0 <= i < old(self)@.len() && !(ptr.raw() <= i < ptr.raw() + 4)
                    ==> final(self)@[i] == old(self)@[i],
            final(self).snapshot() == old(self).snapshot(),
            final(self).sbase() == old(self).sbase(),
    {
        self.set_u32_at_index(ptr.ptr(), val)
    }

    /// Flag byte 1 of the header, where the interpreter advertises its
    /// capabilities.
    pub fn flag1(&self) -> (r: u8)
        requires
            self@.len() > FLAG1_INDEX,
        ensures
            r == self@[FLAG1_INDEX as int],
    {
        self.u8_at_index(FLAG1_INDEX)
    }

    pub fn set_flag1(&mut self, val: u8)
        requires
            old(self).wf(),
            old(self).sbase() > FLAG1_INDEX,
        ensures
            final(self).wf(),
            final(self)@ == old(self)@.update(FLAG1_INDEX as int, val),
            final(self).snapshot() == old(self).snapshot(),
            final(self).sbase() == old(self).sbase(),
    {
        self.set_index_to_u8(FLAG1_INDEX, val);
    }

    /// The useful byte count of the file: the header word doubled, as
    /// version 3 requires.
    pub fn file_length(&self) -> (r: u32)
        requires
            self@.len() >= 64,
        ensures
            r == word_at(self@, FILE_LENGTH_INDEX as int) * 2,
    {
        self.u16_at_index(FILE_LENGTH_INDEX) as u32 * 2
    }

    /// The program counter at which execution starts.
    pub fn starting_pc(&self) -> (r: BytePtr)
        requires
            self@.len() >= 64,
        ensures
            r.raw() == word_at(self@, STARTING_PC_INDEX as int),
    {
        BytePtr::new(self.u16_at_index(STARTING_PC_INDEX))
    }

    /// The base of the object table (which begins with the default
    /// property table).
    pub fn property_table_ptr(&self) -> (r: BytePtr)
        requires
            self@.len() >= 64,
        ensures
            r.raw() == word_at(self@, PROPERTY_TABLE_INDEX as int),
    {
        BytePtr::new(self.u16_at_index(PROPERTY_TABLE_INDEX))
    }

    /// The base of the abbreviations table.
    pub fn abbrev_table_ptr(&self) -> (r: BytePtr)
        requires
            self@.len() >= 64,
        ensures
            r.raw() == word_at(self@, ABBREV_TABLE_INDEX as int),
    {
        BytePtr::new(self.u16_at_index(ABBREV_TABLE_INDEX))
    }

    /// The base of the dictionary table.
    pub fn dictionary_table_ptr(&self) -> (r: BytePtr)
        requires
            self@.len() >= 64,
        ensures
            r.raw() == word_at(self@, DICTIONARY_INDEX as int),
    {
        BytePtr::new(self.u16_at_index(DICTIONARY_INDEX))
    }

    /// The base of the object table, as a plain offset.
    pub fn property_table_offset(&self) -> (r: usize)
        requires
            self@.len() >= 64,
        ensures
            r == word_at(self@, PROPERTY_TABLE_INDEX as int),
    {
        self.u16_at_index(PROPERTY_TABLE_INDEX) as usize
    }

    /// The base of the abbreviations table, as a plain offset.
    pub fn abbrev_table_offset(&self) -> (r: usize)
        requires
            self@.len() >= 64,
        ensures
            r == word_at(self@, ABBREV_TABLE_INDEX as int),
    {
        self.u16_at_index(ABBREV_TABLE_INDEX) as usize
    }

    /// The base of the global variable table, as a plain offset.
    pub fn global_base_byteaddress(&self) -> (r: usize)
        requires
            self@.len() >= 64,
        ensures
            r == word_at(self@, GLOBAL_TABLE_INDEX as int),
    {
        self.u16_at_index(GLOBAL_TABLE_INDEX) as usize
    }

    /// The base of the global variable table.
    pub fn global_base_ptr(&self) -> (r: BytePtr)
        requires
            self@.len() >= 64,
        ensures
            r.raw() == word_at(self@, GLOBAL_TABLE_INDEX as int),
    {
        BytePtr::new(self.u16_at_index(GLOBAL_TABLE_INDEX))
    }

    /// The raw offset of global `global_idx`: two-byte slots starting at
    /// the global table base.
    pub open spec fn global_offset(mem: Seq<u8>, global_idx: u8) -> int {
        word_at(mem, GLOBAL_TABLE_INDEX as int) + 2 * global_idx
    }

    /// Read global `global_idx`, one of the 240 two-byte slots.
    pub fn read_global(&self, global_idx: u8) -> (r: u16)
        requires
            self@.len() >= 64,
            global_idx < 240,
            Memory::global_offset(self@, global_idx) + 2 <= self@.len(),
            Memory::global_offset(self@, global_idx) + 2 <= 0x10000,
        ensures
            r == word_at(self@, Memory::global_offset(self@, global_idx)),
    {
        let base = self.global_base_ptr();
        let ptr = base.inc_by(global_idx as u16 * 2);
        self.u16_at(ptr.to_raw())
    }

    /// Write global `global_idx`.
    pub fn write_global(&mut self, global_idx: u8, val: u16)
        requires
            old(self).wf(),
            old(self)@.len() >= 64,
            global_idx < 240,
            Memory::global_offset(old(self)@, global_idx) + 2 <= old(self).sbase(),
            Memory::global_offset(old(self)@, global_idx) + 2 <= 0x10000,
        ensures
            final(self).wf(),
            final(self)@.len() == old(self)@.len(),
            word_at(final(self)@, Memory::global_offset(old(self)@, global_idx)) == val,
            forall|i: int|
                0 <= i < old(self)@.len() && !(Memory::global_offset(old(self)@, global_idx)
                    <= i < Memory::global_offset(old(self)@, global_idx) + 2)
                    ==> final(self)@[i] == old(self)@[i],
            final(self).snapshot() == old(self).snapshot(),
            final(self).sbase() == old(self).sbase(),
    {
        let base = self.global_base_ptr();
        let ptr = base.inc_by(global_idx as u16 * 2);
        self.set_u16_at(val, ptr.to_raw());
    }

    /// Copy the dynamic region of the load-time snapshot back over the live
    /// image.  Together with the read-only invariant on the static region
    /// this restores the image exactly as it was loaded.
    pub fn restore_dynamic_bytes(&mut self)
        requires
            old(self).wf(),
        ensures
            final(self).wf(),
            final(self)@ == old(self).snapshot(),
            final(self).snapshot() == old(self).snapshot(),
            final(self).sbase() == old(self).sbase(),
    {
        let mut i: usize = 0;
        while i < self.static_base
            invariant
                self.wf(),
                i <= self.static_base,
                self.snap@ == old(self).snapshot(),
                self.static_base == old(self).static_base,
                self.bytes@.len() == old(self)@.len(),
                forall|j: int| 0 <= j < i ==> self.bytes@[j] == self.snap@[j],
            decreases self.static_base - i,
        {
            proof {
                assert(self.static_base <= self.bytes@.len());
            }
            let b = self.snap[i];
            self.bytes.set(i, b);
            i = i + 1;
        }
        assert(self.bytes@ =~= self.snap@);
    }
}

/// Consequences of the memory invariant that other modules rely on: the
/// static base never exceeds the image, and snapshot and image agree in
/// length.
pub proof fn lemma_wf_bounds(m: Memory)
    requires
        m.wf(),
    ensures
        0 <= m.sbase() <= m@.len(),
        m.snapshot().len() == m@.len(),
        m.sbase() <= 0xffff,
{
}

/// The memory invariant, spelled out over the view: other modules state
/// their own invariants in these terms.
pub open spec fn mem_wf(mem: Seq<u8>, snap: Seq<u8>, sbase: int) -> bool {
    &&& snap.len() == mem.len()
    &&& sbase == spec_static_base(snap)
    &&& forall|i: int| sbase <= i < mem.len() ==> mem[i] == snap[i]
}

/// `Memory::wf` is exactly `mem_wf` of the view, the snapshot, and the
/// static base.
pub proof fn lemma_wf_open(m: Memory)
    ensures
        m.wf() == mem_wf(m@, m.snapshot(), m.sbase()),
{
}

impl From<Vec<u8>> for Memory {
    fn from(vec: Vec<u8>) -> Memory {
        Memory::new(vec)
    }
}

impl vstd::std_specs::convert::FromSpecImpl<Vec<u8>> for Memory {
    open spec fn obeys_from_spec() -> bool {
        false
    }

    open spec fn from_spec(vec: Vec<u8>) -> Memory {
        arbitrary()
    }
}

} // verus!
