//! The three pointer disciplines of the Z-Machine, and the raw byte offset
//! they all convert to.
//!
//! * `BytePtr` — a direct offset from the base of memory.
//! * `WordPtr` — an even address stored divided by two; used only for the
//!   abbreviations sub-table.
//! * `PackedAddr` — where a routine or string begins in high memory; in
//!   version 3 the raw offset is twice the stored value.
//!
//! Keeping the kinds distinct prevents a packed address from being read as a
//! byte address without an explicit conversion.

use vstd::prelude::*;

verus! {

/// An offset into memory from 0 to the last byte of the image.
#[derive(Clone, Copy, Debug, PartialEq, Eq, Structural)]
pub struct BytePtr {
    val: u16,
}

impl BytePtr {
    /// The stored offset.
    pub closed spec fn spec_val(self) -> u16 {
        self.val
    }

    /// The raw byte offset this pointer resolves to.
    pub open spec fn raw(self) -> int {
        self.spec_val() as int
    }

    pub fn new(val: u16) -> (r: BytePtr)
        ensures
            r.spec_val() == val,
    {
        BytePtr { val }
    }

    /// A byte pointer `addend` bytes further on.
    pub fn inc_by(&self, addend: u16) -> (r: BytePtr)
        requires
            self.spec_val() + addend <= 0xffff,
        ensures
            r.raw() == self.raw() + addend,
    {
        BytePtr { val: self.val + addend }
    }

    /// The raw offset of this pointer.
    pub fn to_raw(self) -> (r: RawPtr)
        ensures
            r.raw() == self.raw(),
    {
        RawPtr { val: self.val as usize }
    }
}

/// An even address in the bottom 128K of memory, stored divided by two.
/// Used only by the abbreviations table.
#[derive(Clone, Copy, Debug, PartialEq, Eq, Structural)]
pub struct WordPtr {
    val: u16,
}

impl WordPtr {
    pub closed spec fn spec_val(self) -> u16 {
        self.val
    }

    /// The raw byte offset: twice the stored value.
    pub open spec fn raw(self) -> int {
        self.spec_val() * 2
    }

    pub fn new(val: u16) -> (r: WordPtr)
        ensures
            r.spec_val() == val,
    {
        WordPtr { val }
    }

    pub fn to_raw(self) -> (r: RawPtr)
        ensures
            r.raw() == self.raw(),
    {
        RawPtr { val: self.val as usize * 2 }
    }
}

/// The location of a routine or string in high memory.  In version 3 of the
/// format the raw offset is twice the stored value.
#[derive(Clone, Copy, Debug, PartialEq, Eq, Structural)]
pub struct PackedAddr {
    val: u16,
}

impl PackedAddr {
    pub closed spec fn spec_val(self) -> u16 {
        self.val
    }

    /// The raw byte offset: twice the stored value (version 3).
    pub open spec fn raw(self) -> int {
        self.spec_val() * 2
    }

    pub fn new(val: u16) -> (r: PackedAddr)
        ensures
            r.spec_val() == val,
    {
        PackedAddr { val }
    }

    pub fn to_raw(self) -> (r: RawPtr)
        ensures
            r.raw() == self.raw(),
    {
        RawPtr { val: self.val as usize * 2 }
    }
}

/// A raw pointer into memory: any location in dynamic, static, or high
/// memory.  Constructed from one of the typed pointers so that the pointer
/// kind is always declared at the point of creation.
#[derive(Clone, Copy, Debug, PartialEq, Eq, Structural)]
pub struct RawPtr {
    val: usize,
}

impl RawPtr {
    pub closed spec fn spec_val(self) -> usize {
        self.val
    }

    /// The raw pointer holding `v`, at the specification level.
    pub closed spec fn spec_new(v: usize) -> RawPtr {
        RawPtr { val: v }
    }

    pub open spec fn raw(self) -> int {
        self.spec_val() as int
    }

    pub fn new(val: usize) -> (r: RawPtr)
        ensures
            r.raw() == val,
    {
        RawPtr { val }
    }

    /// The offset as a plain machine integer.
    pub fn ptr(&self) -> (r: usize)
        ensures
            r == self.raw(),
    {
        self.val
    }

    /// Advance the pointer by `addend` bytes.
    pub fn inc_by(&mut self, addend: usize)
        requires
            old(self).raw() + addend <= usize::MAX,
        ensures
            final(self).raw() == old(self).raw() + addend,
    {
        self.val = self.val + addend;
    }
}

impl From<RawPtr> for usize {
    fn from(rp: RawPtr) -> usize {
        rp.val
    }
}

impl vstd::std_specs::convert::FromSpecImpl<RawPtr> for usize {
    open spec fn obeys_from_spec() -> bool {
        true
    }

    open spec fn from_spec(rp: RawPtr) -> usize {
        rp.spec_val()
    }
}

impl From<BytePtr> for RawPtr {
    fn from(bp: BytePtr) -> RawPtr {
        bp.to_raw()
    }
}

impl vstd::std_specs::convert::FromSpecImpl<BytePtr> for RawPtr {
    open spec fn obeys_from_spec() -> bool {
        true
    }

    open spec fn from_spec(bp: BytePtr) -> RawPtr {
        RawPtr::spec_new(bp.spec_val() as usize)
    }
}

impl From<WordPtr> for RawPtr {
    fn from(wp: WordPtr) -> RawPtr {
        wp.to_raw()
    }
}

impl vstd::std_specs::convert::FromSpecImpl<WordPtr> for RawPtr {
    open spec fn obeys_from_spec() -> bool {
        true
    }

    open spec fn from_spec(wp: WordPtr) -> RawPtr {
        RawPtr::spec_new((wp.spec_val() * 2) as usize)
    }
}

impl From<PackedAddr> for RawPtr {
    fn from(pa: PackedAddr) -> RawPtr {
        pa.to_raw()
    }
}

impl vstd::std_specs::convert::FromSpecImpl<PackedAddr> for RawPtr {
    open spec fn obeys_from_spec() -> bool {
        true
    }

    open spec fn from_spec(pa: PackedAddr) -> RawPtr {
        RawPtr::spec_new((pa.spec_val() * 2) as usize)
    }
}

} // verus!
