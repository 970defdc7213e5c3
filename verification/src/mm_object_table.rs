//! The object table as it lives in a story file's dynamic memory: after a
//! 31-entry default-property table (62 bytes) come contiguous 9-byte
//! object records, 1-indexed.  Each record holds 4 bytes of attribute
//! flags, one byte each for parent, sibling, and child, then a two-byte
//! pointer to the object's property header.

use vstd::prelude::*;

use crate::memory::{dword_at, word_at, Memory};
use crate::object_table::{with_child, with_parent, with_sibling, ObjRec, ZObjectTable};
use crate::ptrs::BytePtr;
use crate::result::{Error, ZResult};

verus! {

/// The raw offset of the 9-byte record of object `o` in a table based at
/// `base`: 62 bytes of default properties, then the records.
pub open spec fn obj_off(base: int, o: u16) -> int {
    base + 62 + 9 * (o - 1)
}

/// Whether offset `i` lies in some object record's attribute or link
/// fields (the first 7 bytes of a record); the property-header pointer at
/// offsets 7 and 8 is never written by the table.
pub open spec fn obj_field_at(base: int, i: int) -> bool {
    base + 62 <= i < base + 62 + 9 * 255 && (i - (base + 62)) % 9 < 7
}

/// The object records a memory image holds for a table based at `base`:
/// every number whose record fits below the static-memory base.
pub open spec fn mm_objs(base: int, mem: Seq<u8>, sbase: int) -> Map<u16, ObjRec> {
    Map::new(
        |o: u16| 1 <= o <= 255 && obj_off(base, o) + 9 <= sbase,
        |o: u16|
            ObjRec {
                attributes: dword_at(mem, obj_off(base, o)) as u32,
                parent: mem[obj_off(base, o) + 4] as u16,
                sibling: mem[obj_off(base, o) + 5] as u16,
                child: mem[obj_off(base, o) + 6] as u16,
            },
    )
}

/// The memory-mapped object table: all state lives in the memory image,
/// the table itself is just the base pointer.
#[derive(Debug)]
pub struct MemoryMappedObjectTable {
    pub base_ptr: BytePtr,
}

impl MemoryMappedObjectTable {
    pub fn new(ptr: BytePtr) -> (r: MemoryMappedObjectTable)
        ensures
            r.base_ptr == ptr,
    {
        MemoryMappedObjectTable { base_ptr: ptr }
    }

    /// The handle on object `object_number`: its number and the address
    /// of its record.
    pub fn object_with_number(&self, object_number: u16) -> (r: MemoryMappedObject)
        requires
            1 <= object_number,
            obj_off(self.base_ptr.raw(), object_number) + 9 <= 0x10000,
        ensures
            r.number == object_number,
            r.ptr.raw() == obj_off(self.base_ptr.raw(), object_number),
    {
        MemoryMappedObject {
            number: object_number,
            ptr: self.base_ptr.inc_by(31 * 2 + (object_number - 1) * 9),
        }
    }

    /// The default value of property `property_number`, from the 31-entry
    /// table at the base.
    pub fn default_property_value(&self, property_number: u16, access: &Memory) -> (r: u16)
        requires
            1 <= property_number <= 31,
            self.base_ptr.raw() + 62 <= 0x10000,
            self.base_ptr.raw() + 2 * (property_number - 1) + 2 <= access@.len(),
        ensures
            r == word_at(access@, self.base_ptr.raw() + 2 * (property_number - 1)),
    {
        let ptr = self.base_ptr.inc_by(2 * (property_number - 1));
        access.u16_at(ptr.to_raw())
    }
}

/// A handle on one memory-mapped object: its number and the raw address
/// of its 9-byte record.
#[derive(Debug)]
pub struct MemoryMappedObject {
    pub number: u16,
    pub ptr: BytePtr,
}

impl MemoryMappedObject {
    pub fn attributes(&self, memory: &Memory) -> (r: u32)
        requires
            self.ptr.raw() + 9 <= 0x10000,
            self.ptr.raw() + 9 <= memory@.len(),
        ensures
            r == dword_at(memory@, self.ptr.raw()),
    {
        memory.u32_at(self.ptr.to_raw())
    }

    pub fn set_attributes(&self, attrs: u32, memory: &mut Memory)
        requires
            old(memory).wf(),
            self.ptr.raw() + 9 <= 0x10000,
            self.ptr.raw() + 9 <= old(memory).sbase(),
        ensures
            final(memory).wf(),
            final(memory)@.len() == old(memory)@.len(),
            final(memory).sbase() == old(memory).sbase(),
            final(memory).snapshot() == old(memory).snapshot(),
            dword_at(final(memory)@, self.ptr.raw()) == attrs,
            forall|i: int|
                0 <= i < old(memory)@.len() && !(self.ptr.raw() <= i < self.ptr.raw() + 4)
                    ==> final(memory)@[i] == old(memory)@[i],
    {
        memory.set_u32_at(self.ptr.to_raw(), attrs);
    }

    pub fn parent(&self, memory: &Memory) -> (r: u16)
        requires
            self.ptr.raw() + 9 <= 0x10000,
            self.ptr.raw() + 9 <= memory@.len(),
        ensures
            r == memory@[self.ptr.raw() + 4],
    {
        let p = self.ptr.inc_by(4);
        memory.u8_at(p.to_raw()) as u16
    }

    pub fn set_parent(&self, parent: u16, memory: &mut Memory)
        requires
            old(memory).wf(),
            self.ptr.raw() + 9 <= 0x10000,
            self.ptr.raw() + 9 <= old(memory).sbase(),
        ensures
            final(memory).wf(),
            final(memory).sbase() == old(memory).sbase(),
            final(memory).snapshot() == old(memory).snapshot(),
            final(memory)@ == old(memory)@.update(self.ptr.raw() + 4, (parent as u8)),
    {
        let p = self.ptr.inc_by(4);
        memory.set_u8_at(parent as u8, p.to_raw());
    }

    pub fn sibling(&self, memory: &Memory) -> (r: u16)
        requires
            self.ptr.raw() + 9 <= 0x10000,
            self.ptr.raw() + 9 <= memory@.len(),
        ensures
            r == memory@[self.ptr.raw() + 5],
    {
        let p = self.ptr.inc_by(5);
        memory.u8_at(p.to_raw()) as u16
    }

    pub fn set_sibling(&self, sibling: u16, memory: &mut Memory)
        requires
            old(memory).wf(),
            self.ptr.raw() + 9 <= 0x10000,
            self.ptr.raw() + 9 <= old(memory).sbase(),
        ensures
            final(memory).wf(),
            final(memory).sbase() == old(memory).sbase(),
            final(memory).snapshot() == old(memory).snapshot(),
            final(memory)@ == old(memory)@.update(self.ptr.raw() + 5, (sibling as u8)),
    {
        let p = self.ptr.inc_by(5);
        memory.set_u8_at(sibling as u8, p.to_raw());
    }

    pub fn child(&self, memory: &Memory) -> (r: u16)
        requires
            self.ptr.raw() + 9 <= 0x10000,
            self.ptr.raw() + 9 <= memory@.len(),
        ensures
            r == memory@[self.ptr.raw() + 6],
    {
        let p = self.ptr.inc_by(6);
        memory.u8_at(p.to_raw()) as u16
    }

    /// The object's property table, located through the two-byte pointer
    /// at the end of the record.
    pub fn property_table(&self, memory: &Memory) -> (r: ZResult<MemoryMappedPropertyTable>)
        requires
            self.ptr.raw() + 9 <= 0x10000,
            self.ptr.raw() + 9 <= memory@.len(),
        ensures
            match r {
                Ok(t) => t.ptr.raw() == word_at(memory@, self.ptr.raw() + 7) && word_at(
                    memory@,
                    self.ptr.raw() + 7,
                ) < memory@.len() && t.text_len == memory@[t.ptr.raw()],
                Err(e) => e == Error::Fatal && word_at(memory@, self.ptr.raw() + 7)
                    >= memory@.len(),
            },
    {
        let p7 = self.ptr.inc_by(7);
        let addr = memory.u16_at(p7.to_raw());
        let ptr = BytePtr::new(addr);
        if addr as usize >= memory.size() {
            return Err(Error::Fatal);
        }
        Ok(MemoryMappedPropertyTable::at(ptr, memory))
    }

    pub fn set_child(&self, child: u16, memory: &mut Memory)
        requires
            old(memory).wf(),
            self.ptr.raw() + 9 <= 0x10000,
            self.ptr.raw() + 9 <= old(memory).sbase(),
        ensures
            final(memory).wf(),
            final(memory).sbase() == old(memory).sbase(),
            final(memory).snapshot() == old(memory).snapshot(),
            final(memory)@ == old(memory)@.update(self.ptr.raw() + 6, (child as u8)),
    {
        let p = self.ptr.inc_by(6);
        memory.set_u8_at(child as u8, p.to_raw());
    }
}

impl ZObjectTable for MemoryMappedObjectTable {
    type DataAccess = Memory;

    open spec fn objs(&self, storage: Memory) -> Map<u16, ObjRec> {
        mm_objs(self.base_ptr.raw(), storage@, storage.sbase())
    }

    open spec fn table_wf(&self, storage: Memory) -> bool {
        storage.wf()
    }

    open spec fn store_frame(&self, pre: Memory, post: Memory) -> bool {
        let base = self.base_ptr.raw();
        &&& post@.len() == pre@.len()
        &&& post.sbase() == pre.sbase()
        &&& post.snapshot() == pre.snapshot()
        &&& forall|i: int|
            0 <= i < pre@.len() && !obj_field_at(base, i) ==> post@[i] == pre@[i]
    }

    proof fn store_frame_refl(&self, s: Memory) {
    }

    proof fn store_frame_trans(&self, a: Memory, b: Memory, c: Memory) {
    }

    proof fn objs_bounded(&self, storage: Memory) {
    }

    fn has_object(&self, storage: &Memory, object_number: u16) -> (r: bool) {
        if object_number < 1 || object_number > 255 {
            return false;
        }
        let off: usize = self.base_ptr.to_raw().ptr() + 62 + 9 * (object_number as usize - 1);
        off + 9 <= storage.static_base()
    }

    fn attributes(&self, storage: &Memory, object_number: u16) -> (r: u32) {
        proof {
            lemma_sbase_le_len(*storage);
        }
        let off: usize = self.base_ptr.to_raw().ptr() + 62 + 9 * (object_number as usize - 1);
        storage.u32_at_index(off)
    }

    fn set_attributes(&self, storage: &mut Memory, object_number: u16, attrs: u32) {
        let off: usize = self.base_ptr.to_raw().ptr() + 62 + 9 * (object_number as usize - 1);
        storage.set_u32_at_index(off, attrs);
        proof {
            lemma_sbase_le_len(*old(storage));
            lemma_mm_update4(self.base_ptr.raw(), *old(storage), *storage, object_number);
            assert(self.objs(*storage) =~= self.objs(*old(storage)).insert(
                object_number,
                ObjRec { attributes: attrs, ..self.objs(*old(storage))[object_number] },
            ));
        }
    }

    fn parent(&self, storage: &Memory, object_number: u16) -> (r: u16) {
        proof {
            lemma_sbase_le_len(*storage);
        }
        let off: usize = self.base_ptr.to_raw().ptr() + 62 + 9 * (object_number as usize - 1);
        storage.u8_at_index(off + 4) as u16
    }

    fn set_parent(&self, storage: &mut Memory, object_number: u16, parent: u16) {
        let off: usize = self.base_ptr.to_raw().ptr() + 62 + 9 * (object_number as usize - 1);
        storage.set_index_to_u8(off + 4, parent as u8);
        proof {
            lemma_sbase_le_len(*old(storage));
            lemma_mm_update1(self.base_ptr.raw(), *old(storage), *storage, object_number, 4);
            assert(self.objs(*storage) =~= self.objs(*old(storage)).insert(
                object_number,
                with_parent(self.objs(*old(storage))[object_number], parent),
            ));
        }
    }

    fn sibling(&self, storage: &Memory, object_number: u16) -> (r: u16) {
        proof {
            lemma_sbase_le_len(*storage);
        }
        let off: usize = self.base_ptr.to_raw().ptr() + 62 + 9 * (object_number as usize - 1);
        storage.u8_at_index(off + 5) as u16
    }

    fn set_sibling(&self, storage: &mut Memory, object_number: u16, sibling: u16) {
        let off: usize = self.base_ptr.to_raw().ptr() + 62 + 9 * (object_number as usize - 1);
        storage.set_index_to_u8(off + 5, sibling as u8);
        proof {
            lemma_sbase_le_len(*old(storage));
            lemma_mm_update1(self.base_ptr.raw(), *old(storage), *storage, object_number, 5);
            assert(self.objs(*storage) =~= self.objs(*old(storage)).insert(
                object_number,
                with_sibling(self.objs(*old(storage))[object_number], sibling),
            ));
        }
    }

    fn child(&self, storage: &Memory, object_number: u16) -> (r: u16) {
        proof {
            lemma_sbase_le_len(*storage);
        }
        let off: usize = self.base_ptr.to_raw().ptr() + 62 + 9 * (object_number as usize - 1);
        storage.u8_at_index(off + 6) as u16
    }

    fn set_child(&self, storage: &mut Memory, object_number: u16, child: u16) {
        let off: usize = self.base_ptr.to_raw().ptr() + 62 + 9 * (object_number as usize - 1);
        storage.set_index_to_u8(off + 6, child as u8);
        proof {
            lemma_sbase_le_len(*old(storage));
            lemma_mm_update1(self.base_ptr.raw(), *old(storage), *storage, object_number, 6);
            assert(self.objs(*storage) =~= self.objs(*old(storage)).insert(
                object_number,
                with_child(self.objs(*old(storage))[object_number], child),
            ));
        }
    }
}


/// The outcome of scanning a property list for a property number.
pub enum PropLookup {
    /// The property exists: its data size in bytes and the raw address of
    /// its data (just past the size byte).
    Found { size: u16, addr: int },
    /// The list ended (properties are sorted descending, so a smaller
    /// number means the wanted one is absent).
    Absent,
    /// The list ran off the end of memory.
    Corrupt,
}

/// Scan the property list at `q` for property `number`.  Each entry is a
/// size byte encoding `(size - 1) * 32 + number`, then `size` data bytes;
/// a zero byte terminates the list (its number field is 0).
pub open spec fn find_prop(m: Seq<u8>, q: int, number: u16) -> PropLookup
    decreases m.len() - q,
{
    if q < 0 || q >= m.len() {
        PropLookup::Corrupt
    } else {
        let size_byte = m[q];
        let num = size_byte % 32;
        let size = size_byte / 32 + 1;
        if num < number {
            PropLookup::Absent
        } else if num == number {
            PropLookup::Found { size: size as u16, addr: q + 1 }
        } else if q + size + 1 > m.len() {
            PropLookup::Corrupt
        } else {
            find_prop(m, q + size + 1, number)
        }
    }
}

/// A property table in memory: the address of its header and the length
/// in words of the short name that follows the header's first byte.
#[derive(Debug)]
pub struct MemoryMappedPropertyTable {
    pub ptr: BytePtr,
    pub text_len: u8,
}

impl MemoryMappedPropertyTable {
    /// The raw address where the property entries begin: one byte for the
    /// text length, then the 2-byte words of the short name.
    pub open spec fn props_start(&self) -> int {
        self.ptr.raw() + 1 + 2 * self.text_len
    }

    /// The table at `ptr`, reading the text length from memory.
    pub fn at(ptr: BytePtr, memory: &Memory) -> (r: MemoryMappedPropertyTable)
        requires
            ptr.raw() < memory@.len(),
        ensures
            r.ptr == ptr,
            r.text_len == memory@[ptr.raw()],
    {
        MemoryMappedPropertyTable { ptr, text_len: memory.u8_at(ptr.to_raw()) }
    }

    /// The address of the object's short name.
    pub fn name_ptr(&self) -> (r: BytePtr)
        requires
            self.ptr.raw() + 1 <= 0xffff,
        ensures
            r.raw() == self.ptr.raw() + 1,
    {
        self.ptr.inc_by(1)
    }

    /// Find property `number`: its size and a pointer to its data, or
    /// `None` when the object lacks it.  Fatal on a corrupt list.
    pub fn find_property(&self, number: u16, memory: &Memory) -> (r: ZResult<
        Option<(u16, BytePtr)>,
    >)
        requires
            1 <= number,
        ensures
            match find_prop(memory@, self.props_start(), number) {
                PropLookup::Found { size, addr } => if addr <= 0xffff {
                    match r {
                        Ok(Some((s, p))) => s == size && p.raw() == addr,
                        _ => false,
                    }
                } else {
                    r == ZResult::<Option<(u16, BytePtr)>>::Err(Error::Fatal)
                },
                PropLookup::Absent => r == ZResult::<Option<(u16, BytePtr)>>::Ok(
                    None::<(u16, BytePtr)>,
                ),
                PropLookup::Corrupt => r == ZResult::<Option<(u16, BytePtr)>>::Err(Error::Fatal),
            },
    {
        let len = memory.size();
        let mut q: usize = self.ptr.to_raw().ptr() + 1 + 2 * (self.text_len as usize);
        while q < len
            invariant
                len == memory@.len(),
                find_prop(memory@, self.props_start(), number) == find_prop(
                    memory@,
                    q as int,
                    number,
                ),
                1 <= number,
            decreases len - q,
        {
            let size_byte = memory.u8_at_index(q);
            let num = size_byte % 32;
            let size = size_byte / 32 + 1;
            if (num as u16) < number {
                return Ok(None);
            } else if num as u16 == number {
                if q + 1 > 0xffff {
                    return Err(Error::Fatal);
                }
                return Ok(Some((size as u16, BytePtr::new((q + 1) as u16))));
            } else if size as usize + 1 > len - q {
                return Err(Error::Fatal);
            }
            q = q + size as usize + 1;
        }
        Err(Error::Fatal)
    }

    /// The property number following `number` in the list, as
    /// `next_property` computes it: 0 asks for the first property's
    /// number; otherwise the number of the entry after `number`, which is
    /// 0 at the terminator.  `None` marks the fatal cases: a missing
    /// property, or a list running off memory.
    pub open spec fn spec_next_prop(m: Seq<u8>, start: int, number: u16) -> Option<u16> {
        if number == 0 {
            if 0 <= start < m.len() {
                Some((m[start] % 32) as u16)
            } else {
                None
            }
        } else {
            match find_prop(m, start, number) {
                PropLookup::Found { size, addr } => if addr <= 0xffff && addr + size < m.len() {
                    Some((m[addr + size] % 32) as u16)
                } else {
                    None
                },
                _ => None,
            }
        }
    }

    /// The property number following `number` in the list: 0 asks for the
    /// first property's number; otherwise the next lower-numbered one, or
    /// 0 at the end.  A missing `number` is fatal, as the format requires.
    pub fn next_property(&self, number: u16, memory: &Memory) -> (r: ZResult<u16>)
        ensures
            r.is_ok() ==> r.unwrap() <= 31,
            match MemoryMappedPropertyTable::spec_next_prop(
                memory@,
                self.props_start(),
                number,
            ) {
                Some(n) => r == ZResult::<u16>::Ok(n),
                None => r == ZResult::<u16>::Err(Error::Fatal),
            },
    {
        let len = memory.size();
        let start: usize = self.ptr.to_raw().ptr() + 1 + 2 * (self.text_len as usize);
        if number == 0 {
            if start >= len {
                return Err(Error::Fatal);
            }
            let size_byte = memory.u8_at_index(start);
            return Ok((size_byte % 32) as u16);
        }
        match self.find_property(number, memory)? {
            None => Err(Error::Fatal),
            Some((size, ptr)) => {
                let addr = ptr.to_raw().ptr();
                if addr >= len || size as usize >= len - addr {
                    return Err(Error::Fatal);
                }
                let next_byte = memory.u8_at_index(addr + size as usize);
                Ok((next_byte % 32) as u16)
            },
        }
    }

    /// Store `value` into property `number`: the low byte for a one-byte
    /// property, the whole word for a two-byte one.  A missing property or
    /// any other size is fatal, as the format requires.
    pub fn set_property(&self, number: u16, value: u16, memory: &mut Memory) -> (r: ZResult<()>)
        requires
            old(memory).wf(),
            1 <= number,
        ensures
            final(memory).wf(),
            final(memory)@.len() == old(memory)@.len(),
            final(memory).sbase() == old(memory).sbase(),
            final(memory).snapshot() == old(memory).snapshot(),
            match find_prop(old(memory)@, self.props_start(), number) {
                PropLookup::Found { size, addr } => {
                    if size == 1 && 0 <= addr && addr + 1 <= old(memory).sbase() && addr <= 0xffff {
                        r == ZResult::<()>::Ok(()) && final(memory)@ == old(memory)@.update(
                            addr,
                            (value % 256) as u8,
                        )
                    } else if size == 2 && 0 <= addr && addr + 2 <= old(memory).sbase() && addr
                        <= 0xffff {
                        r == ZResult::<()>::Ok(()) && final(memory)@ == old(memory)@.update(
                            addr,
                            (value / 256) as u8,
                        ).update(addr + 1, (value % 256) as u8)
                    } else {
                        r == ZResult::<()>::Err(Error::Fatal) && final(memory)@ == old(memory)@
                    }
                },
                _ => r == ZResult::<()>::Err(Error::Fatal) && final(memory)@ == old(memory)@,
            },
    {
        proof {
            crate::memory::lemma_wf_bounds(*old(memory));
        }
        let found = self.find_property(number, memory)?;
        match found {
            None => Err(Error::Fatal),
            Some((size, ptr)) => {
                let addr = ptr.to_raw().ptr();
                let sbase = memory.static_base();
                if size == 1 {
                    if addr + 1 > sbase {
                        return Err(Error::Fatal);
                    }
                    memory.set_index_to_u8(addr, (value % 256) as u8);
                    Ok(())
                } else if size == 2 {
                    if addr + 2 > sbase {
                        return Err(Error::Fatal);
                    }
                    memory.set_u16_at_index(addr, value);
                    Ok(())
                } else {
                    Err(Error::Fatal)
                }
            },
        }
    }
}

/// Under the memory invariant the static base never exceeds the image.
proof fn lemma_sbase_le_len(m: Memory)
    requires
        m.wf(),
    ensures
        m.sbase() <= m@.len(),
{
    crate::memory::lemma_wf_bounds(m);
}

/// A one-byte write into field `field` (4, 5 or 6) of object `o`'s record
/// touches no other record's fields and is covered by the frame.
proof fn lemma_mm_update1(base: int, pre: Memory, post: Memory, o: u16, field: int)
    requires
        base >= 0,
        1 <= o <= 255,
        4 <= field < 7,
        obj_off(base, o) + 9 <= pre.sbase(),
        pre.wf(),
        post.wf(),
        post.sbase() == pre.sbase(),
        post.snapshot() == pre.snapshot(),
        post@.len() == pre@.len(),
        forall|i: int| 0 <= i < pre@.len() && i != obj_off(base, o) + field ==> post@[i] == pre@[i],
    ensures
        forall|i: int| 0 <= i < pre@.len() && !obj_field_at(base, i) ==> post@[i] == pre@[i],
        forall|n: u16|
            1 <= n <= 255 && n != o && obj_off(base, n) + 9 <= pre.sbase() ==> {
                &&& dword_at(post@, obj_off(base, n)) == dword_at(pre@, obj_off(base, n))
                &&& post@[obj_off(base, n) + 4] == pre@[obj_off(base, n) + 4]
                &&& post@[obj_off(base, n) + 5] == pre@[obj_off(base, n) + 5]
                &&& post@[obj_off(base, n) + 6] == pre@[obj_off(base, n) + 6]
            },
        dword_at(post@, obj_off(base, o)) == dword_at(pre@, obj_off(base, o)),
{
    let w = obj_off(base, o) + field;
    assert(obj_field_at(base, w)) by {
        assert(w - (base + 62) == 9 * (o - 1) + field);
        assert((9 * (o - 1) + field) % 9 == field) by {
            vstd::arithmetic::div_mod::lemma_mod_multiples_vanish(o - 1, field, 9);
        };
    };
    assert forall|n: u16|
        1 <= n <= 255 && n != o && obj_off(base, n) + 9 <= pre.sbase() implies {
        &&& dword_at(post@, obj_off(base, n)) == dword_at(pre@, obj_off(base, n))
        &&& post@[obj_off(base, n) + 4] == pre@[obj_off(base, n) + 4]
        &&& post@[obj_off(base, n) + 5] == pre@[obj_off(base, n) + 5]
        &&& post@[obj_off(base, n) + 6] == pre@[obj_off(base, n) + 6]
    } by {
        assert(obj_off(base, n) + 9 <= obj_off(base, o) || obj_off(base, o) + 9 <= obj_off(
            base,
            n,
        ));
        lemma_sbase_le_len(pre);
    };
    lemma_sbase_le_len(pre);
}

/// A four-byte write into the attribute field of object `o`'s record
/// touches no other record's fields and is covered by the frame.
proof fn lemma_mm_update4(base: int, pre: Memory, post: Memory, o: u16)
    requires
        base >= 0,
        1 <= o <= 255,
        obj_off(base, o) + 9 <= pre.sbase(),
        pre.wf(),
        post.wf(),
        post.sbase() == pre.sbase(),
        post.snapshot() == pre.snapshot(),
        post@.len() == pre@.len(),
        forall|i: int|
            0 <= i < pre@.len() && !(obj_off(base, o) <= i < obj_off(base, o) + 4) ==> post@[i]
                == pre@[i],
    ensures
        forall|i: int| 0 <= i < pre@.len() && !obj_field_at(base, i) ==> post@[i] == pre@[i],
        forall|n: u16|
            1 <= n <= 255 && n != o && obj_off(base, n) + 9 <= pre.sbase() ==> {
                &&& dword_at(post@, obj_off(base, n)) == dword_at(pre@, obj_off(base, n))
                &&& post@[obj_off(base, n) + 4] == pre@[obj_off(base, n) + 4]
                &&& post@[obj_off(base, n) + 5] == pre@[obj_off(base, n) + 5]
                &&& post@[obj_off(base, n) + 6] == pre@[obj_off(base, n) + 6]
            },
        post@[obj_off(base, o) + 4] == pre@[obj_off(base, o) + 4],
        post@[obj_off(base, o) + 5] == pre@[obj_off(base, o) + 5],
        post@[obj_off(base, o) + 6] == pre@[obj_off(base, o) + 6],
{
    assert forall|i: int|
        0 <= i < pre@.len() && !obj_field_at(base, i) implies post@[i] == pre@[i] by {
        if obj_off(base, o) <= i < obj_off(base, o) + 4 {
            assert(i - (base + 62) == 9 * (o - 1) + (i - obj_off(base, o)));
            assert((9 * (o - 1) + (i - obj_off(base, o))) % 9 == i - obj_off(base, o)) by {
                vstd::arithmetic::div_mod::lemma_mod_multiples_vanish(
                    o - 1,
                    i - obj_off(base, o),
                    9,
                );
            };
            assert(obj_field_at(base, i));
        }
    };
    assert forall|n: u16|
        1 <= n <= 255 && n != o && obj_off(base, n) + 9 <= pre.sbase() implies {
        &&& dword_at(post@, obj_off(base, n)) == dword_at(pre@, obj_off(base, n))
        &&& post@[obj_off(base, n) + 4] == pre@[obj_off(base, n) + 4]
        &&& post@[obj_off(base, n) + 5] == pre@[obj_off(base, n) + 5]
        &&& post@[obj_off(base, n) + 6] == pre@[obj_off(base, n) + 6]
    } by {
        assert(obj_off(base, n) + 9 <= obj_off(base, o) || obj_off(base, o) + 9 <= obj_off(
            base,
            n,
        ));
        lemma_sbase_le_len(pre);
    };
    lemma_sbase_le_len(pre);
}

} // verus!
