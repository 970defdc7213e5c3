//! Loads, stores, increments, and the random-number opcode.

use vstd::prelude::*;

use crate::memory::word_at;
use crate::ops::{eval2_ok, eval2_step, eval2_va, eval2_vb, op_ok, op_step, op_val, Operand};
use crate::result::{Error, ZResult};
use crate::variable::VariableRef;
use crate::zmachine::{
    put_word, read_var_ok, read_var_step, read_var_val, write_var_ok, write_var_step, ZMachine,
    ZView,
};

verus! {

/// The full effect of `storew`: the third operand's word is stored at `array + 2 * index` in dynamic memory.
pub open spec fn storew_post(
    s0: ZView,
    s1: ZView,
    operands: Seq<Operand>,
    r: ZResult<()>,
) -> bool {
    ({
                        if eval2_ok(s0, operands[0], operands[1]) {
                let s2 = eval2_step(s0, operands[0], operands[1]);
                let addr = eval2_va(s0, operands[0]) + 2 * eval2_vb(s0, operands[0], operands[1]);
                if op_ok(s2, operands[2]) {
                    let s3 = op_step(s2, operands[2]);
                    let val = op_val(s2, operands[2]);
                    if addr + 2 <= s3.sbase {
                        r == ZResult::<()>::Ok(()) && s1 == (ZView {
                            mem: put_word(s3.mem, addr, val),
                            ..s3
                        })
                    } else {
                        r == ZResult::<()>::Err(Error::Fatal)
                    }
                } else {
                    r == ZResult::<()>::Err(Error::Fatal)
                }
            } else {
                r == ZResult::<()>::Err(Error::Fatal)
            }
        })
}

/// storew: write the third operand as a word at `array + 2 * index`.
pub fn storew_0x01(vm: &mut ZMachine, operands: [Operand; 4]) -> (r: ZResult<()>)
    requires
        old(vm).wf(),
    ensures
        final(vm).wf(),
        r.is_err() ==> r == ZResult::<()>::Err(Error::Fatal),
        storew_post(old(vm)@, final(vm)@, operands@, r),
{
    let array_val = operands[0].value(vm)?;
    let word_index_val = operands[1].value(vm)?;
    let addr: usize = array_val as usize + 2 * word_index_val as usize;
    let val = operands[2].value(vm)?;
    vm.write_memory(crate::ptrs::RawPtr::new(addr), val)
}

/// The full effect of `storeb`: the third operand's low byte is stored at `array + index` in dynamic memory.
pub open spec fn storeb_post(
    s0: ZView,
    s1: ZView,
    operands: Seq<Operand>,
    r: ZResult<()>,
) -> bool {
    ({
                        if eval2_ok(s0, operands[0], operands[1]) {
                let s2 = eval2_step(s0, operands[0], operands[1]);
                let addr = eval2_va(s0, operands[0]) + eval2_vb(s0, operands[0], operands[1]);
                if op_ok(s2, operands[2]) {
                    let s3 = op_step(s2, operands[2]);
                    let val = op_val(s2, operands[2]);
                    if addr < s3.sbase {
                        r == ZResult::<()>::Ok(()) && s1 == (ZView {
                            mem: s3.mem.update(addr as int, (val % 256) as u8),
                            ..s3
                        })
                    } else {
                        r == ZResult::<()>::Err(Error::Fatal)
                    }
                } else {
                    r == ZResult::<()>::Err(Error::Fatal)
                }
            } else {
                r == ZResult::<()>::Err(Error::Fatal)
            }
        })
}

/// storeb: write the third operand's low byte at `array + index`.
pub fn storeb_0x02(vm: &mut ZMachine, operands: [Operand; 4]) -> (r: ZResult<()>)
    requires
        old(vm).wf(),
    ensures
        final(vm).wf(),
        r.is_err() ==> r == ZResult::<()>::Err(Error::Fatal),
        storeb_post(old(vm)@, final(vm)@, operands@, r),
{
    let array_val = operands[0].value(vm)?;
    let byte_index_val = operands[1].value(vm)?;
    let addr: usize = array_val as usize + byte_index_val as usize;
    let val = operands[2].value(vm)?;
    vm.write_memory_u8(crate::ptrs::RawPtr::new(addr), (val % 256) as u8)
}

/// The full effect of `store`: the second operand's value is written to the named variable; a store to the stack replaces the top.
pub open spec fn store_post(
    s0: ZView,
    s1: ZView,
    encoded_var_op: Operand,
    value_op: Operand,
    r: ZResult<()>,
) -> bool {
    ({
                        if eval2_ok(s0, encoded_var_op, value_op) {
                let s2 = eval2_step(s0, encoded_var_op, value_op);
                let dst = VariableRef::spec_decode((eval2_va(s0, encoded_var_op) % 256) as u8);
                let val = eval2_vb(s0, encoded_var_op, value_op);
                if dst == VariableRef::Stack {
                    if read_var_ok(s2, VariableRef::Stack) {
                        r == ZResult::<()>::Ok(()) && s1 == write_var_step(
                            read_var_step(s2, VariableRef::Stack),
                            VariableRef::Stack,
                            val,
                        )
                    } else {
                        r == ZResult::<()>::Err(Error::Fatal)
                    }
                } else {
                    if write_var_ok(s2, dst) {
                        r == ZResult::<()>::Ok(()) && s1 == write_var_step(s2, dst, val)
                    } else {
                        r == ZResult::<()>::Err(Error::Fatal)
                    }
                }
            } else {
                r == ZResult::<()>::Err(Error::Fatal)
            }
        })
}

/// store: the first operand names a variable; write the second's value
/// to it.  A store to the stack replaces the top instead of pushing.
pub fn store_0x0d(vm: &mut ZMachine, encoded_var_op: Operand, value_op: Operand) -> (r: ZResult<
    (),
>)
    requires
        old(vm).wf(),
    ensures
        final(vm).wf(),
        r.is_err() ==> r == ZResult::<()>::Err(Error::Fatal),
        store_post(old(vm)@, final(vm)@, encoded_var_op, value_op, r),
{
    let encoded_var_val = encoded_var_op.value(vm)?;
    let dst_var = VariableRef::decode((encoded_var_val % 256) as u8);
    let val = value_op.value(vm)?;
    if matches!(dst_var, VariableRef::Stack) {
        // The specification has `store` replace the top of the stack
        // rather than push onto it.
        vm.pop_stack()?;
        vm.push_stack(val)?;
        Ok(())
    } else {
        vm.write_variable(dst_var, val)
    }
}

/// The full effect of `load`: the named variable's value, read without consuming, is stored.
pub open spec fn load_post(
    s0: ZView,
    s1: ZView,
    operand: Operand,
    result_ref: VariableRef,
    r: ZResult<()>,
) -> bool {
    if op_ok(s0, operand) {
        let sa = op_step(s0, operand);
        let src = VariableRef::spec_decode((op_val(s0, operand) % 256) as u8);
        if read_var_ok(sa, src) {
            let val = read_var_val(sa, src);
            if write_var_ok(sa, result_ref) {
                r == ZResult::<()>::Ok(()) && s1 == write_var_step(sa, result_ref, val)
            } else {
                r == ZResult::<()>::Err(Error::Fatal)
            }
        } else {
            r == ZResult::<()>::Err(Error::Fatal)
        }
    } else {
        r == ZResult::<()>::Err(Error::Fatal)
    }
}

/// load: the operand names a variable; store its value, read without
/// consuming — even a stack read leaves the top in place.
pub fn load_0x0e(vm: &mut ZMachine, operand: Operand, result_ref: VariableRef) -> (r: ZResult<()>)
    requires
        old(vm).wf(),
    ensures
        final(vm).wf(),
        r.is_err() ==> r == ZResult::<()>::Err(Error::Fatal),
        load_post(old(vm)@, final(vm)@, operand, result_ref, r),
{
    let encoded = operand.value(vm)?;
    let src = VariableRef::decode((encoded % 256) as u8);
    let val = vm.read_variable_no_pop(src)?;
    vm.write_variable(result_ref, val)
}

/// The full effect of `loadw`: the word at `array + 2 * index` is stored.
pub open spec fn loadw_post(
    s0: ZView,
    s1: ZView,
    array_op: Operand,
    word_index_op: Operand,
    result_ref: VariableRef,
    r: ZResult<()>,
) -> bool {
    ({
                        if eval2_ok(s0, array_op, word_index_op) {
                let s2 = eval2_step(s0, array_op, word_index_op);
                let addr = eval2_va(s0, array_op) + 2 * eval2_vb(s0, array_op, word_index_op);
                if addr + 2 <= s2.mem.len() && write_var_ok(s2, result_ref) {
                    r == ZResult::<()>::Ok(()) && s1 == write_var_step(
                        s2,
                        result_ref,
                        word_at(s2.mem, addr) as u16,
                    )
                } else {
                    r == ZResult::<()>::Err(Error::Fatal)
                }
            } else {
                r == ZResult::<()>::Err(Error::Fatal)
            }
        })
}

/// loadw: store the word at `array + 2 * index`.
pub fn loadw_0x0f(vm: &mut ZMachine, array_op: Operand, word_index_op: Operand, result_ref:
    VariableRef) -> (r: ZResult<()>)
    requires
        old(vm).wf(),
    ensures
        final(vm).wf(),
        r.is_err() ==> r == ZResult::<()>::Err(Error::Fatal),
        loadw_post(old(vm)@, final(vm)@, array_op, word_index_op, result_ref, r),
{
    let array_val = array_op.value(vm)?;
    let word_index_val = word_index_op.value(vm)?;
    let addr: usize = array_val as usize + 2 * word_index_val as usize;
    let result = vm.read_memory(crate::ptrs::RawPtr::new(addr))?;
    vm.write_variable(result_ref, result)
}

/// The full effect of `loadb`: the byte at `array + index` is stored.
pub open spec fn loadb_post(
    s0: ZView,
    s1: ZView,
    array_op: Operand,
    byte_index_op: Operand,
    result_ref: VariableRef,
    r: ZResult<()>,
) -> bool {
    ({
                        if eval2_ok(s0, array_op, byte_index_op) {
                let s2 = eval2_step(s0, array_op, byte_index_op);
                let addr = eval2_va(s0, array_op) + eval2_vb(s0, array_op, byte_index_op);
                if addr < s2.mem.len() && write_var_ok(s2, result_ref) {
                    r == ZResult::<()>::Ok(()) && s1 == write_var_step(
                        s2,
                        result_ref,
                        s2.mem[addr as int] as u16,
                    )
                } else {
                    r == ZResult::<()>::Err(Error::Fatal)
                }
            } else {
                r == ZResult::<()>::Err(Error::Fatal)
            }
        })
}

/// loadb: store the byte at `array + index`.
pub fn loadb_0x10(vm: &mut ZMachine, array_op: Operand, byte_index_op: Operand, result_ref:
    VariableRef) -> (r: ZResult<()>)
    requires
        old(vm).wf(),
    ensures
        final(vm).wf(),
        r.is_err() ==> r == ZResult::<()>::Err(Error::Fatal),
        loadb_post(old(vm)@, final(vm)@, array_op, byte_index_op, result_ref, r),
{
    let array_val = array_op.value(vm)?;
    let byte_index_val = byte_index_op.value(vm)?;
    let addr: usize = array_val as usize + byte_index_val as usize;
    let result = vm.read_memory_u8(crate::ptrs::RawPtr::new(addr))?;
    vm.write_variable(result_ref, result as u16)
}

/// The full effect of `inc`: the named variable is rewritten with its wrapped signed successor.
pub open spec fn inc_post(
    s0: ZView,
    s1: ZView,
    encoded_variable: Operand,
    r: ZResult<()>,
) -> bool {
    if op_ok(s0, encoded_variable) {
        let sa = op_step(s0, encoded_variable);
        let variable = VariableRef::spec_decode((op_val(s0, encoded_variable) % 256) as u8);
        if read_var_ok(sa, variable) {
            let sb = read_var_step(sa, variable);
            let nv = crate::ops::wrap16(crate::ops::to_signed(read_var_val(sa, variable)) + 1);
            if write_var_ok(sb, variable) {
                r == ZResult::<()>::Ok(()) && s1 == write_var_step(sb, variable, nv)
            } else {
                r == ZResult::<()>::Err(Error::Fatal)
            }
        } else {
            r == ZResult::<()>::Err(Error::Fatal)
        }
    } else {
        r == ZResult::<()>::Err(Error::Fatal)
    }
}

/// inc: the operand names a variable; add one to it as a signed value.
pub fn inc_0x05(vm: &mut ZMachine, encoded_variable: Operand) -> (r: ZResult<()>)
    requires
        old(vm).wf(),
    ensures
        final(vm).wf(),
        r.is_err() ==> r == ZResult::<()>::Err(Error::Fatal),
        inc_post(old(vm)@, final(vm)@, encoded_variable, r),
{
    let encoded = encoded_variable.value(vm)?;
    let variable = VariableRef::decode((encoded % 256) as u8);
    let old_value = vm.read_variable(variable)?;
    let nv = crate::binop::wrap_add(old_value, 1);
    vm.write_variable(variable, nv)
}

/// The full effect of `dec`: the named variable is rewritten with its wrapped signed predecessor.
pub open spec fn dec_post(
    s0: ZView,
    s1: ZView,
    encoded_variable: Operand,
    r: ZResult<()>,
) -> bool {
    if op_ok(s0, encoded_variable) {
        let sa = op_step(s0, encoded_variable);
        let variable = VariableRef::spec_decode((op_val(s0, encoded_variable) % 256) as u8);
        if read_var_ok(sa, variable) {
            let sb = read_var_step(sa, variable);
            let nv = crate::ops::wrap16(crate::ops::to_signed(read_var_val(sa, variable)) - 1);
            if write_var_ok(sb, variable) {
                r == ZResult::<()>::Ok(()) && s1 == write_var_step(sb, variable, nv)
            } else {
                r == ZResult::<()>::Err(Error::Fatal)
            }
        } else {
            r == ZResult::<()>::Err(Error::Fatal)
        }
    } else {
        r == ZResult::<()>::Err(Error::Fatal)
    }
}

/// dec: the operand names a variable; subtract one as a signed value.
pub fn dec_0x06(vm: &mut ZMachine, encoded_variable: Operand) -> (r: ZResult<()>)
    requires
        old(vm).wf(),
    ensures
        final(vm).wf(),
        r.is_err() ==> r == ZResult::<()>::Err(Error::Fatal),
        dec_post(old(vm)@, final(vm)@, encoded_variable, r),
{
    let encoded = encoded_variable.value(vm)?;
    let variable = VariableRef::decode((encoded % 256) as u8);
    let old_value = vm.read_variable(variable)?;
    let nv = crate::binop::wrap_sub(old_value, 1);
    vm.write_variable(variable, nv)
}

/// The full effect of `random`: a positive range stores a value in `1..=range`; zero or a negative seed stores 0.
pub open spec fn random_post(
    s0: ZView,
    s1: ZView,
    operands: Seq<Operand>,
    variable: VariableRef,
    r: ZResult<()>,
) -> bool {
    if op_ok(s0, operands[0]) {
        let sa = op_step(s0, operands[0]);
        let range = op_val(s0, operands[0]);
        if write_var_ok(sa, variable) {
            r == ZResult::<()>::Ok(()) && (if crate::ops::to_signed(range) > 0 {
                exists|v: u16| 1 <= v <= range && s1 == #[trigger] write_var_step(sa, variable, v)
            } else {
                s1 == write_var_step(sa, variable, 0)
            })
        } else {
            r == ZResult::<()>::Err(Error::Fatal)
        }
    } else {
        r == ZResult::<()>::Err(Error::Fatal)
    }
}

/// random: a positive range stores a value uniform in `1..=range`; zero
/// reseeds unpredictably and stores 0; a negative value seeds the
/// generator deterministically with its magnitude and stores 0.
pub fn random_0x07(vm: &mut ZMachine, operands: [Operand; 4], variable: VariableRef) -> (r:
    ZResult<()>)
    requires
        old(vm).wf(),
    ensures
        final(vm).wf(),
        r.is_err() ==> r == ZResult::<()>::Err(Error::Fatal),
        random_post(old(vm)@, final(vm)@, operands@, variable, r),
{
    let range = operands[0].value(vm)?;
    if range == 0 {
        // Seed as unpredictably as possible.
        vm.reseed_rng();
        vm.write_variable(variable, 0)
    } else if range >= 0x8000 {
        // Negative: seed deterministically with the magnitude.
        let magnitude = (0x10000u32 - range as u32) as u16;
        vm.seed_rng(magnitude);
        vm.write_variable(variable, 0)
    } else {
        let v = vm.rand(range);
        vm.write_variable(variable, v)
    }
}

} // verus!
