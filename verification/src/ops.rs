//! Instruction operands.  Evaluating an operand yields a 16-bit word:
//! constants are immediate, and a variable operand goes through the
//! variable-access contract, whose stack reads are observable (they pop).

use vstd::prelude::*;

use crate::result::{Error, ZResult};
use crate::variable::VariableRef;
use crate::zmachine::{read_var_ok, read_var_step, read_var_val, ZMachine, ZView};

verus! {

#[derive(Clone, Copy, Debug, PartialEq, Eq, Structural)]
pub enum Operand {
    LargeConstant(u16),
    SmallConstant(u8),
    Variable(VariableRef),
    Omitted,
}

/// Whether evaluating `op` can succeed.
pub open spec fn op_ok(s: ZView, op: Operand) -> bool {
    match op {
        Operand::LargeConstant(_) => true,
        Operand::SmallConstant(_) => true,
        Operand::Variable(v) => read_var_ok(s, v),
        Operand::Omitted => false,
    }
}

/// The word `op` evaluates to.
pub open spec fn op_val(s: ZView, op: Operand) -> u16 {
    match op {
        Operand::LargeConstant(val) => val,
        Operand::SmallConstant(val) => val as u16,
        Operand::Variable(v) => read_var_val(s, v),
        Operand::Omitted => 0,
    }
}

/// The state after evaluating `op` (a stack read pops).
pub open spec fn op_step(s: ZView, op: Operand) -> ZView {
    match op {
        Operand::Variable(v) => read_var_step(s, v),
        _ => s,
    }
}

/// Whether evaluating `a` then `b` succeeds.
pub open spec fn eval2_ok(s: ZView, a: Operand, b: Operand) -> bool {
    op_ok(s, a) && op_ok(op_step(s, a), b)
}

/// The first operand's value.
pub open spec fn eval2_va(s: ZView, a: Operand) -> u16 {
    op_val(s, a)
}

/// The second operand's value, observed after the first was evaluated.
pub open spec fn eval2_vb(s: ZView, a: Operand, b: Operand) -> u16 {
    op_val(op_step(s, a), b)
}

/// The state after evaluating both operands.
pub open spec fn eval2_step(s: ZView, a: Operand, b: Operand) -> ZView {
    op_step(op_step(s, a), b)
}

/// The 16-bit word read as a signed value.
pub open spec fn to_signed(v: u16) -> int {
    if v >= 0x8000 {
        v - 0x10000
    } else {
        v as int
    }
}

/// A mathematical integer truncated to 16 bits, two's complement.
pub open spec fn wrap16(v: int) -> u16 {
    (v % 0x10000) as u16
}

impl Operand {
    /// Evaluate the operand against the machine.  An omitted operand
    /// cannot be evaluated.
    pub fn value(&self, vm: &mut ZMachine) -> (r: ZResult<u16>)
        requires
            old(vm).wf(),
        ensures
            final(vm).wf(),
            op_ok(old(vm)@, *self) ==> r == ZResult::<u16>::Ok(op_val(old(vm)@, *self)) && final(vm)@ == op_step(old(vm)@, *self),
            !op_ok(old(vm)@, *self) ==> r == ZResult::<u16>::Err(Error::Fatal) && final(vm)@ == old(vm)@,
    {
        match *self {
            Operand::LargeConstant(val) => Ok(val),
            Operand::SmallConstant(val) => Ok(val as u16),
            Operand::Variable(variable) => vm.read_variable(variable),
            Operand::Omitted => Err(Error::Fatal),
        }
    }
}

} // verus!
