//! Opcodes over the object database: attributes, tree links, and
//! properties.

use vstd::prelude::*;

use crate::mm_object_table::{find_prop, obj_off, PropLookup};
use crate::object_table::{insert_rel, remove_rel, ObjRec};
use crate::ops::{eval2_ok, eval2_step, eval2_va, eval2_vb, op_ok, op_step, op_val, Operand};
use crate::result::{Error, ZResult};
use crate::variable::VariableRef;
use crate::zmachine::{write_var_ok, write_var_step, ZMachine, ZView};

verus! {

/// The full effect of `put_prop`: the third operand is written into the named property of the object the first operand names.
pub open spec fn put_prop_post(
    s0: ZView,
    s1: ZView,
    operands: Seq<Operand>,
    r: ZResult<()>,
) -> bool {
    ({
                        if eval2_ok(s0, operands[0], operands[1]) && op_ok(
                eval2_step(s0, operands[0], operands[1]),
                operands[2],
            ) {
                let o = eval2_va(s0, operands[0]);
                let num = eval2_vb(s0, operands[0], operands[1]);
                let s3 = op_step(eval2_step(s0, operands[0], operands[1]), operands[2]);
                let value = op_val(eval2_step(s0, operands[0], operands[1]), operands[2]);
                let tptr = crate::memory::word_at(
                    s3.mem,
                    obj_off(crate::memory::word_at(s3.mem, 0x0a), o) + 7,
                );
                if num == 0 || num > 31 {
                    r == ZResult::<()>::Err(Error::Fatal)
                } else if ZMachine::view_objs(s3).contains_key(o) && tptr < s3.mem.len() {
                    let start = tptr + 1 + 2 * s3.mem[tptr];
                    match find_prop(s3.mem, start, num) {
                        PropLookup::Found { size, addr } => {
                            if size == 1 && 0 <= addr && addr + 1 <= s3.sbase && addr <= 0xffff {
                                r == ZResult::<()>::Ok(()) && s1 == (ZView {
                                    mem: s3.mem.update(addr, (value % 256) as u8),
                                    ..s3
                                })
                            } else if size == 2 && 0 <= addr && addr + 2 <= s3.sbase && addr
                                <= 0xffff {
                                r == ZResult::<()>::Ok(()) && s1 == (ZView {
                                    mem: crate::zmachine::put_word(s3.mem, addr, value),
                                    ..s3
                                })
                            } else {
                                r == ZResult::<()>::Err(Error::Fatal)
                            }
                        },
                        _ => r == ZResult::<()>::Err(Error::Fatal),
                    }
                } else {
                    r == ZResult::<()>::Err(Error::Fatal)
                }
            } else {
                r == ZResult::<()>::Err(Error::Fatal)
            }
        })
}

/// put_prop: write the third operand into the named property of the
/// object the first operand names: the low byte for a one-byte property,
/// the whole word for a two-byte one; anything else is fatal.
pub fn put_prop_0x03(vm: &mut ZMachine, operands: [Operand; 4]) -> (r: ZResult<()>)
    requires
        old(vm).wf(),
    ensures
        final(vm).wf(),
        r.is_err() ==> r == ZResult::<()>::Err(Error::Fatal),
        put_prop_post(old(vm)@, final(vm)@, operands@, r),
{
    let object_index = operands[0].value(vm)?;
    let property_number = operands[1].value(vm)?;
    let new_value = operands[2].value(vm)?;
    if property_number == 0 || property_number > 31 {
        return Err(Error::Fatal);
    }
    vm.put_prop(object_index, property_number, new_value)
}

/// The full effect of `insert_obj`: the first object moves under the second, as `insert_rel` prescribes; success exactly when `insert_ok` holds.
pub open spec fn insert_obj_post(
    s0: ZView,
    s1: ZView,
    object_op: Operand,
    dest_op: Operand,
    r: ZResult<()>,
) -> bool {
    ({
                        if eval2_ok(s0, object_op, dest_op) {
                let s2 = eval2_step(s0, object_op, dest_op);
                &&& r.is_ok() == crate::object_table::insert_ok(
                    ZMachine::view_objs(s2),
                    eval2_va(s0, object_op),
                    eval2_vb(s0, object_op, dest_op),
                )
                &&& (r == ZResult::<()>::Ok(()) ==> ZMachine::objs_frame(s2, s1)
                    && insert_rel(
                    ZMachine::view_objs(s2),
                    ZMachine::view_objs(s1),
                    eval2_va(s0, object_op),
                    eval2_vb(s0, object_op, dest_op),
                ))
            } else {
                r == ZResult::<()>::Err(Error::Fatal)
            }
        })
}

/// insert_obj: move the first object under the second, detaching it from
/// its old parent and making it the new parent's first child.
pub fn insert_obj_0x0e(vm: &mut ZMachine, object_op: Operand, dest_op: Operand) -> (r: ZResult<()>)
    requires
        old(vm).wf(),
    ensures
        final(vm).wf(),
        r.is_err() ==> r == ZResult::<()>::Err(Error::Fatal),
        insert_obj_post(old(vm)@, final(vm)@, object_op, dest_op, r),
{
    let object_index = object_op.value(vm)?;
    let dest_index = dest_op.value(vm)?;
    vm.obj_insert(object_index, dest_index)
}

/// The full effect of `remove_obj`: the object is detached from its parent, as `remove_rel` prescribes.
pub open spec fn remove_obj_post(
    s0: ZView,
    s1: ZView,
    object_op: Operand,
    r: ZResult<()>,
) -> bool {
    ({
                        if op_ok(s0, object_op) {
                let sa = op_step(s0, object_op);
                let o = op_val(s0, object_op);
                &&& r.is_ok() == (ZMachine::view_objs(sa).contains_key(o) && ZMachine::view_objs(
                    sa,
                )[o].parent != o && crate::object_table::remove_ok(ZMachine::view_objs(sa), o))
                &&& (r == ZResult::<()>::Ok(()) ==> ZMachine::objs_frame(sa, s1)
                    && remove_rel(
                    ZMachine::view_objs(sa),
                    ZMachine::view_objs(s1),
                    o,
                ))
            } else {
                r == ZResult::<()>::Err(Error::Fatal)
            }
        })
}

/// remove_obj: detach the object from its parent.
pub fn remove_obj_0x09(vm: &mut ZMachine, object_op: Operand) -> (r: ZResult<()>)
    requires
        old(vm).wf(),
    ensures
        final(vm).wf(),
        r.is_err() ==> r == ZResult::<()>::Err(Error::Fatal),
        remove_obj_post(old(vm)@, final(vm)@, object_op, r),
{
    let object_number = object_op.value(vm)?;
    vm.obj_remove(object_number)
}

/// The attribute mask for attribute `n` (0..31): attribute 0 is the most
/// significant bit of the 32-bit flag field.
pub open spec fn attr_mask(n: u16) -> u32 {
    1u32 << (31 - (n % 256) % 32)
}

/// The attribute number an operand value names; the low byte is used and
/// must be below 32.
fn attr_shift(attr: u16) -> (r: ZResult<u32>)
    ensures
        match r {
            Ok(m) => (attr % 256) % 32 == attr % 256 && m == attr_mask(attr),
            Err(e) => e == Error::Fatal && (attr % 256) >= 32,
        },
{
    let low = (attr % 256) as u8;
    if low >= 32 {
        return Err(Error::Fatal);
    }
    Ok(1u32 << (31 - low) as u32)
}

/// The full effect of `test_attr`: branch when the named attribute bit is set.
pub open spec fn test_attr_post(
    s0: ZView,
    s1: ZView,
    object_number: Operand,
    attr_number: Operand,
    r: ZResult<()>,
) -> bool {
    ({
                        if eval2_ok(s0, object_number, attr_number) {
                let s2 = eval2_step(s0, object_number, attr_number);
                let o = eval2_va(s0, object_number);
                let a = eval2_vb(s0, object_number, attr_number);
                if ZMachine::view_objs(s2).contains_key(o) && (a % 256) < 32 {
                    match crate::branch::branch_step(
                        s2,
                        ZMachine::view_objs(s2)[o].attributes & attr_mask(a) != 0,
                    ) {
                        Some(s3) => r == ZResult::<()>::Ok(()) && s1 == s3,
                        None => r == ZResult::<()>::Err(Error::Fatal),
                    }
                } else {
                    r == ZResult::<()>::Err(Error::Fatal)
                }
            } else {
                r == ZResult::<()>::Err(Error::Fatal)
            }
        })
}

/// test_attr: branch when the named attribute bit of the object is set.
pub fn test_attr_0x0a(vm: &mut ZMachine, object_number: Operand, attr_number: Operand) -> (r:
    ZResult<()>)
    requires
        old(vm).wf(),
    ensures
        final(vm).wf(),
        r.is_err() ==> r == ZResult::<()>::Err(Error::Fatal),
        test_attr_post(old(vm)@, final(vm)@, object_number, attr_number, r),
{
    let o = object_number.value(vm)?;
    let a = attr_number.value(vm)?;
    let attrs = vm.obj_attributes(o)?;
    let mask = attr_shift(a)?;
    crate::branch::branch_on_condition(vm, attrs & mask != 0)
}

/// The full effect of `set_attr`: the named attribute bit is set.
pub open spec fn set_attr_post(
    s0: ZView,
    s1: ZView,
    object_number: Operand,
    attr_number: Operand,
    r: ZResult<()>,
) -> bool {
    ({
                        if eval2_ok(s0, object_number, attr_number) {
                let s2 = eval2_step(s0, object_number, attr_number);
                let o = eval2_va(s0, object_number);
                let a = eval2_vb(s0, object_number, attr_number);
                if ZMachine::view_objs(s2).contains_key(o) && (a % 256) < 32 {
                    r == ZResult::<()>::Ok(()) && ZMachine::objs_frame(s2, s1)
                        && ZMachine::view_objs(s1) == ZMachine::view_objs(s2).insert(
                        o,
                        ObjRec {
                            attributes: ZMachine::view_objs(s2)[o].attributes | attr_mask(a),
                            ..ZMachine::view_objs(s2)[o]
                        },
                    )
                } else {
                    r == ZResult::<()>::Err(Error::Fatal)
                }
            } else {
                r == ZResult::<()>::Err(Error::Fatal)
            }
        })
}

/// set_attr: set the named attribute bit of the object.
pub fn set_attr_0x0b(vm: &mut ZMachine, object_number: Operand, attr_number: Operand) -> (r:
    ZResult<()>)
    requires
        old(vm).wf(),
    ensures
        final(vm).wf(),
        r.is_err() ==> r == ZResult::<()>::Err(Error::Fatal),
        set_attr_post(old(vm)@, final(vm)@, object_number, attr_number, r),
{
    let o = object_number.value(vm)?;
    let a = attr_number.value(vm)?;
    let attrs = vm.obj_attributes(o)?;
    let mask = attr_shift(a)?;
    vm.obj_set_attributes(o, attrs | mask)
}

/// The full effect of `clear_attr`: the named attribute bit is cleared.
pub open spec fn clear_attr_post(
    s0: ZView,
    s1: ZView,
    object_number: Operand,
    attr_number: Operand,
    r: ZResult<()>,
) -> bool {
    ({
                        if eval2_ok(s0, object_number, attr_number) {
                let s2 = eval2_step(s0, object_number, attr_number);
                let o = eval2_va(s0, object_number);
                let a = eval2_vb(s0, object_number, attr_number);
                if ZMachine::view_objs(s2).contains_key(o) && (a % 256) < 32 {
                    r == ZResult::<()>::Ok(()) && ZMachine::objs_frame(s2, s1)
                        && ZMachine::view_objs(s1) == ZMachine::view_objs(s2).insert(
                        o,
                        ObjRec {
                            attributes: ZMachine::view_objs(s2)[o].attributes & !attr_mask(a),
                            ..ZMachine::view_objs(s2)[o]
                        },
                    )
                } else {
                    r == ZResult::<()>::Err(Error::Fatal)
                }
            } else {
                r == ZResult::<()>::Err(Error::Fatal)
            }
        })
}

/// clear_attr: clear the named attribute bit of the object.
pub fn clear_attr_0x0c(vm: &mut ZMachine, object_number: Operand, attr_number: Operand) -> (r:
    ZResult<()>)
    requires
        old(vm).wf(),
    ensures
        final(vm).wf(),
        r.is_err() ==> r == ZResult::<()>::Err(Error::Fatal),
        clear_attr_post(old(vm)@, final(vm)@, object_number, attr_number, r),
{
    let o = object_number.value(vm)?;
    let a = attr_number.value(vm)?;
    let attrs = vm.obj_attributes(o)?;
    let mask = attr_shift(a)?;
    vm.obj_set_attributes(o, attrs & !mask)
}

/// The full effect of `get_parent`: the object's parent number is stored.
pub open spec fn get_parent_post(
    s0: ZView,
    s1: ZView,
    object_number: Operand,
    variable: VariableRef,
    r: ZResult<()>,
) -> bool {
    ({
                        if op_ok(s0, object_number) {
                let sa = op_step(s0, object_number);
                let o = op_val(s0, object_number);
                if ZMachine::view_objs(sa).contains_key(o) && write_var_ok(sa, variable) {
                    r == ZResult::<()>::Ok(()) && s1 == write_var_step(
                        sa,
                        variable,
                        ZMachine::view_objs(sa)[o].parent,
                    )
                } else {
                    r == ZResult::<()>::Err(Error::Fatal)
                }
            } else {
                r == ZResult::<()>::Err(Error::Fatal)
            }
        })
}

/// get_parent: store the object's parent number.
pub fn get_parent_0x03(vm: &mut ZMachine, object_number: Operand, variable: VariableRef) -> (r:
    ZResult<()>)
    requires
        old(vm).wf(),
    ensures
        final(vm).wf(),
        r.is_err() ==> r == ZResult::<()>::Err(Error::Fatal),
        get_parent_post(old(vm)@, final(vm)@, object_number, variable, r),
{
    let o = object_number.value(vm)?;
    let parent_number = vm.obj_parent(o)?;
    vm.write_variable(variable, parent_number)
}

/// The full effect of `get_prop_len`: the length field of the size byte before the given property address is stored; the null address stores 0.
pub open spec fn get_prop_len_post(
    s0: ZView,
    s1: ZView,
    prop_addr: Operand,
    variable: VariableRef,
    r: ZResult<()>,
) -> bool {
    ({
                        if op_ok(s0, prop_addr) {
                let sa = op_step(s0, prop_addr);
                let addr = op_val(s0, prop_addr);
                if addr == 0 {
                    if write_var_ok(sa, variable) {
                        r == ZResult::<()>::Ok(()) && s1 == write_var_step(sa, variable, 0)
                    } else {
                        r == ZResult::<()>::Err(Error::Fatal)
                    }
                } else if addr - 1 < sa.mem.len() && write_var_ok(sa, variable) {
                    r == ZResult::<()>::Ok(()) && s1 == write_var_step(
                        sa,
                        variable,
                        (sa.mem[addr - 1] / 32 + 1) as u16,
                    )
                } else {
                    r == ZResult::<()>::Err(Error::Fatal)
                }
            } else {
                r == ZResult::<()>::Err(Error::Fatal)
            }
        })
}

/// get_prop_len: the operand is a property-data address as returned by
/// `get_prop_addr`; store the length its size byte encodes, or 0 for the
/// null address.
pub fn get_prop_len_0x04(vm: &mut ZMachine, prop_addr: Operand, variable: VariableRef) -> (r:
    ZResult<()>)
    requires
        old(vm).wf(),
    ensures
        final(vm).wf(),
        r.is_err() ==> r == ZResult::<()>::Err(Error::Fatal),
        get_prop_len_post(old(vm)@, final(vm)@, prop_addr, variable, r),
{
    let addr = prop_addr.value(vm)?;
    if addr == 0 {
        return vm.write_variable(variable, 0);
    }
    let byte = vm.read_memory_u8(crate::ptrs::RawPtr::new(addr as usize - 1))?;
    vm.write_variable(variable, (byte / 32 + 1) as u16)
}

/// The full effect of `get_prop`: the named property's byte or word, or the default-table entry when absent, is stored.
pub open spec fn get_prop_post(
    s0: ZView,
    s1: ZView,
    object_number: Operand,
    property_number: Operand,
    variable: VariableRef,
    r: ZResult<()>,
) -> bool {
    ({
                        if eval2_ok(s0, object_number, property_number) {
                let s2 = eval2_step(s0, object_number, property_number);
                let o = eval2_va(s0, object_number);
                let num = eval2_vb(s0, object_number, property_number);
                let tptr = crate::memory::word_at(
                    s2.mem,
                    obj_off(crate::memory::word_at(s2.mem, 0x0a), o) + 7,
                );
                if ZMachine::view_objs(s2).contains_key(o) && 1 <= num <= 31 && tptr < s2.mem.len() {
                    let start = tptr + 1 + 2 * s2.mem[tptr];
                    match find_prop(s2.mem, start, num) {
                        PropLookup::Found { size, addr } => {
                            if size == 1 && addr <= 0xffff && addr < s2.mem.len() && write_var_ok(
                                s2,
                                variable,
                            ) {
                                r == ZResult::<()>::Ok(()) && s1 == write_var_step(
                                    s2,
                                    variable,
                                    s2.mem[addr] as u16,
                                )
                            } else if size == 2 && addr <= 0xffff && addr + 2 <= s2.mem.len()
                                && write_var_ok(s2, variable) {
                                r == ZResult::<()>::Ok(()) && s1 == write_var_step(
                                    s2,
                                    variable,
                                    crate::memory::word_at(s2.mem, addr) as u16,
                                )
                            } else {
                                r == ZResult::<()>::Err(Error::Fatal)
                            }
                        },
                        PropLookup::Absent => {
                            let doff = crate::memory::word_at(s2.mem, 0x0a) + 2 * (num - 1);
                            if doff + 2 <= s2.mem.len() && doff + 2 <= 0x10000 && write_var_ok(
                                s2,
                                variable,
                            ) {
                                r == ZResult::<()>::Ok(()) && s1 == write_var_step(
                                    s2,
                                    variable,
                                    crate::memory::word_at(s2.mem, doff) as u16,
                                )
                            } else {
                                r == ZResult::<()>::Err(Error::Fatal)
                            }
                        },
                        PropLookup::Corrupt => r == ZResult::<()>::Err(Error::Fatal),
                    }
                } else {
                    r == ZResult::<()>::Err(Error::Fatal)
                }
            } else {
                r == ZResult::<()>::Err(Error::Fatal)
            }
        })
}

/// get_prop: store the value of the named property — the byte or word of
/// its data — or the default-table entry when the object lacks it.
pub fn get_prop_0x11(
    vm: &mut ZMachine,
    object_number: Operand,
    property_number: Operand,
    variable: VariableRef,
) -> (r: ZResult<()>)
    requires
        old(vm).wf(),
    ensures
        final(vm).wf(),
        r.is_err() ==> r == ZResult::<()>::Err(Error::Fatal),
        get_prop_post(old(vm)@, final(vm)@, object_number, property_number, variable, r),
{
    let o = object_number.value(vm)?;
    let num = property_number.value(vm)?;
    if num < 1 || num > 31 {
        return Err(Error::Fatal);
    }
    let table = vm.obj_prop_table(o)?;
    let found = table.find_property(num, vm.memory())?;
    match found {
        Some((size, ptr)) => {
            if size == 1 {
                let b = vm.read_memory_u8(ptr.to_raw())?;
                vm.write_variable(variable, b as u16)
            } else if size == 2 {
                let w = vm.read_memory(ptr.to_raw())?;
                vm.write_variable(variable, w)
            } else {
                Err(Error::Fatal)
            }
        },
        None => {
            let t = vm.object_table();
            let base = t.base_ptr.to_raw().ptr();
            let doff = base + 2 * (num as usize - 1);
            if doff + 2 > 0x10000 {
                return Err(Error::Fatal);
            }
            let v = vm.read_memory(crate::ptrs::RawPtr::new(doff))?;
            vm.write_variable(variable, v)
        },
    }
}

/// The full effect of `get_prop_addr`: the address of the named property's data, or 0 when absent, is stored.
pub open spec fn get_prop_addr_post(
    s0: ZView,
    s1: ZView,
    object_number: Operand,
    property_number: Operand,
    variable: VariableRef,
    r: ZResult<()>,
) -> bool {
    ({
                        if eval2_ok(s0, object_number, property_number) {
                let s2 = eval2_step(s0, object_number, property_number);
                let o = eval2_va(s0, object_number);
                let num = eval2_vb(s0, object_number, property_number);
                let tptr = crate::memory::word_at(
                    s2.mem,
                    obj_off(crate::memory::word_at(s2.mem, 0x0a), o) + 7,
                );
                if ZMachine::view_objs(s2).contains_key(o) && 1 <= num <= 31 && tptr < s2.mem.len() {
                    let start = tptr + 1 + 2 * s2.mem[tptr];
                    match find_prop(s2.mem, start, num) {
                        PropLookup::Found { size, addr } => {
                            if addr <= 0xffff && write_var_ok(s2, variable) {
                                r == ZResult::<()>::Ok(()) && s1 == write_var_step(
                                    s2,
                                    variable,
                                    addr as u16,
                                )
                            } else {
                                r == ZResult::<()>::Err(Error::Fatal)
                            }
                        },
                        PropLookup::Absent => {
                            if write_var_ok(s2, variable) {
                                r == ZResult::<()>::Ok(()) && s1 == write_var_step(
                                    s2,
                                    variable,
                                    0,
                                )
                            } else {
                                r == ZResult::<()>::Err(Error::Fatal)
                            }
                        },
                        PropLookup::Corrupt => r == ZResult::<()>::Err(Error::Fatal),
                    }
                } else {
                    r == ZResult::<()>::Err(Error::Fatal)
                }
            } else {
                r == ZResult::<()>::Err(Error::Fatal)
            }
        })
}

/// get_prop_addr: store the byte address of the named property's data,
/// or 0 when the object lacks it.
pub fn get_prop_addr_0x12(
    vm: &mut ZMachine,
    object_number: Operand,
    property_number: Operand,
    variable: VariableRef,
) -> (r: ZResult<()>)
    requires
        old(vm).wf(),
    ensures
        final(vm).wf(),
        r.is_err() ==> r == ZResult::<()>::Err(Error::Fatal),
        get_prop_addr_post(old(vm)@, final(vm)@, object_number, property_number, variable, r),
{
    let o = object_number.value(vm)?;
    let num = property_number.value(vm)?;
    if num < 1 || num > 31 {
        return Err(Error::Fatal);
    }
    let table = vm.obj_prop_table(o)?;
    let found = table.find_property(num, vm.memory())?;
    match found {
        Some((_size, ptr)) => {
            let addr = ptr.to_raw().ptr();
            vm.write_variable(variable, addr as u16)
        },
        None => vm.write_variable(variable, 0),
    }
}

/// The full effect of `get_next_prop`: the number of the property after the named one (or the first, for 0) is stored.
pub open spec fn get_next_prop_post(
    s0: ZView,
    s1: ZView,
    object_number: Operand,
    property_number: Operand,
    variable: VariableRef,
    r: ZResult<()>,
) -> bool {
    ({
                        if eval2_ok(s0, object_number, property_number) {
                let s2 = eval2_step(s0, object_number, property_number);
                let o = eval2_va(s0, object_number);
                let num = eval2_vb(s0, object_number, property_number);
                let tptr = crate::memory::word_at(
                    s2.mem,
                    obj_off(crate::memory::word_at(s2.mem, 0x0a), o) + 7,
                );
                if ZMachine::view_objs(s2).contains_key(o) && num <= 31 && tptr < s2.mem.len() {
                    let start = tptr + 1 + 2 * s2.mem[tptr];
                    match crate::mm_object_table::MemoryMappedPropertyTable::spec_next_prop(
                        s2.mem,
                        start,
                        num,
                    ) {
                        Some(n) => {
                            if write_var_ok(s2, variable) {
                                r == ZResult::<()>::Ok(()) && s1 == write_var_step(
                                    s2,
                                    variable,
                                    n,
                                )
                            } else {
                                r == ZResult::<()>::Err(Error::Fatal)
                            }
                        },
                        None => r == ZResult::<()>::Err(Error::Fatal),
                    }
                } else {
                    r == ZResult::<()>::Err(Error::Fatal)
                }
            } else {
                r == ZResult::<()>::Err(Error::Fatal)
            }
        })
}

/// get_next_prop: with number 0, store the first property's number; with
/// a real number, the next lower one, or 0 at the end of the list.
pub fn get_next_prop_0x13(
    vm: &mut ZMachine,
    object_number: Operand,
    property_number: Operand,
    variable: VariableRef,
) -> (r: ZResult<()>)
    requires
        old(vm).wf(),
    ensures
        final(vm).wf(),
        r.is_err() ==> r == ZResult::<()>::Err(Error::Fatal),
        get_next_prop_post(old(vm)@, final(vm)@, object_number, property_number, variable, r),
{
    let o = object_number.value(vm)?;
    let num = property_number.value(vm)?;
    if num > 31 {
        return Err(Error::Fatal);
    }
    let table = vm.obj_prop_table(o)?;
    let next = table.next_property(num, vm.memory())?;
    vm.write_variable(variable, next)
}

} // verus!
