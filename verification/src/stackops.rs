//! Opcodes that work directly on the evaluation stack.

use vstd::prelude::*;

use crate::ops::{op_ok, op_step, op_val, Operand};
use crate::result::{Error, ZResult};
use crate::variable::VariableRef;
use crate::zmachine::{
    read_var_ok, read_var_step, read_var_val, write_var_ok, write_var_step, ZMachine,
};

verus! {

/// The full effect of `push`: the first operand's value goes on top of
/// the evaluation stack.
pub open spec fn push_post(
    s0: crate::zmachine::ZView,
    s1: crate::zmachine::ZView,
    operands: Seq<Operand>,
    r: ZResult<()>,
) -> bool {
    if op_ok(s0, operands[0]) && write_var_ok(op_step(s0, operands[0]), VariableRef::Stack) {
        r == ZResult::<()>::Ok(()) && s1 == write_var_step(
            op_step(s0, operands[0]),
            VariableRef::Stack,
            op_val(s0, operands[0]),
        )
    } else {
        r == ZResult::<()>::Err(Error::Fatal)
    }
}

/// push: evaluate the first operand and push it.
pub fn push_0x08(vm: &mut ZMachine, operands: [Operand; 4]) -> (r: ZResult<()>)
    requires
        old(vm).wf(),
    ensures
        final(vm).wf(),
        push_post(old(vm)@, final(vm)@, operands@, r),
{
    let val = operands[0].value(vm)?;
    vm.push_stack(val)
}

/// The full effect of `pull`: the top of the stack is popped into the
/// variable the first operand names.
pub open spec fn pull_post(
    s0: crate::zmachine::ZView,
    s1: crate::zmachine::ZView,
    operands: Seq<Operand>,
    r: ZResult<()>,
) -> bool {
    if op_ok(s0, operands[0]) {
        let sa = op_step(s0, operands[0]);
        let variable = VariableRef::spec_decode((op_val(s0, operands[0]) % 256) as u8);
        if read_var_ok(sa, VariableRef::Stack) && write_var_ok(
            read_var_step(sa, VariableRef::Stack),
            variable,
        ) {
            r == ZResult::<()>::Ok(()) && s1 == write_var_step(
                read_var_step(sa, VariableRef::Stack),
                variable,
                read_var_val(sa, VariableRef::Stack),
            )
        } else {
            r == ZResult::<()>::Err(Error::Fatal)
        }
    } else {
        r == ZResult::<()>::Err(Error::Fatal)
    }
}

/// pull: pop the stack into the variable the first operand names.
pub fn pull_0x09(vm: &mut ZMachine, operands: [Operand; 4]) -> (r: ZResult<()>)
    requires
        old(vm).wf(),
    ensures
        final(vm).wf(),
        pull_post(old(vm)@, final(vm)@, operands@, r),
{
    let encoded = operands[0].value(vm)?;
    let variable = VariableRef::decode((encoded % 256) as u8);
    let val = vm.pop_stack()?;
    vm.write_variable(variable, val)
}

/// The full effect of `pop`: the top of the stack is discarded; an
/// empty evaluation stack is fatal.
pub open spec fn pop_post(s0: crate::zmachine::ZView, s1: crate::zmachine::ZView, r: ZResult<
    (),
>) -> bool {
    if read_var_ok(s0, VariableRef::Stack) {
        r == ZResult::<()>::Ok(()) && s1 == read_var_step(s0, VariableRef::Stack)
    } else {
        r == ZResult::<()>::Err(Error::Fatal)
    }
}

/// pop: discard the top of the stack.
pub fn pop_0x09(vm: &mut ZMachine) -> (r: ZResult<()>)
    requires
        old(vm).wf(),
    ensures
        final(vm).wf(),
        pop_post(old(vm)@, final(vm)@, r),
{
    vm.pop_stack()?;
    Ok(())
}

} // verus!
