//! Routine calls and returns.

use vstd::prelude::*;

use crate::memory::word_at;
use crate::ops::{op_ok, op_step, op_val, Operand};
use crate::result::{Error, ZResult};
use crate::stack::{FIRST_LOCAL_OFFSET, NUM_LOCALS_OFFSET, PC_OFFSET, RESULT_LOCATION_OFFSET};
use crate::variable::VariableRef;
use crate::zmachine::{ret_step, write_var_ok, write_var_step, ZMachine, ZView};

verus! {

/// call: the first operand is a packed routine address.  Address 0
/// stores 0 and falls through; otherwise a frame is pushed, the routine's
/// locals are initialised from the defaults following its header byte,
/// and up to three call arguments overwrite the first defaults.
/// The call arguments: the values of the operands after the routine
/// address, evaluated in order up to the first omitted one.
pub open spec fn call_args(s: ZView, rest: Seq<Operand>) -> Option<(Seq<u16>, ZView)>
    decreases rest.len(),
{
    if rest.len() == 0 {
        Some((Seq::empty(), s))
    } else if rest[0] == Operand::Omitted {
        Some((Seq::empty(), s))
    } else if !op_ok(s, rest[0]) {
        None
    } else {
        match call_args(op_step(s, rest[0]), rest.skip(1)) {
            None => None,
            Some((vs, s2)) => Some((seq![op_val(s, rest[0])] + vs, s2)),
        }
    }
}

/// The fresh frame a completed call leaves, relative to the state `sd`
/// after the arguments were evaluated: the frame base is the old stack
/// pointer; the header carries the caller's frame, the return PC and the
/// result target; each local holds a passed argument or, past them, the
/// default from the routine's code; the evaluation stack starts empty;
/// and the PC sits at the routine's first instruction.
pub open spec fn call_frame_post(
    sd: ZView,
    s1: ZView,
    routine: int,
    n: u8,
    args: Seq<u16>,
    return_pc: int,
    rloc: VariableRef,
) -> bool {
    let f = sd.stack.sp;
    &&& s1 == (ZView { pc: routine + 1 + 2 * n, stack: s1.stack, ..sd })
    &&& s1.stack.bytes.len() == sd.stack.bytes.len()
    &&& s1.stack.fp == f
    &&& s1.stack.base_sp == f + FIRST_LOCAL_OFFSET + 2 * n
    &&& s1.stack.sp == s1.stack.base_sp
    &&& forall|j: int| 0 <= j < f ==> s1.stack.bytes[j] == sd.stack.bytes[j]
    &&& word_at(s1.stack.bytes, f) == sd.stack.fp
    &&& s1.stack.bytes[f + PC_OFFSET] * 0x1000000 + s1.stack.bytes[f + PC_OFFSET + 1] * 0x10000
        + s1.stack.bytes[f + PC_OFFSET + 2] * 0x100 + s1.stack.bytes[f + PC_OFFSET + 3]
        == return_pc
    &&& s1.stack.bytes[f + NUM_LOCALS_OFFSET] == n
    &&& s1.stack.bytes[f + RESULT_LOCATION_OFFSET] == VariableRef::spec_encode(rloc)
    &&& forall|i: int|
        0 <= i < n ==> #[trigger] s1.stack.local(i) == (if i < args.len() {
            args[i] as int
        } else {
            word_at(sd.mem, routine + 1 + 2 * i)
        })
}

/// The full effect of `call`: the result byte is read first; a routine
/// address of 0 stores 0 and falls through; otherwise the arguments are
/// evaluated, a frame is pushed, the locals take the routine's defaults
/// with the arguments copied over the first ones, and execution
/// continues at the routine body.  Running off memory, more than 15
/// locals, or a frame that does not fit is fatal.
pub open spec fn call_post(s0: ZView, s1: ZView, operands: Seq<Operand>, r: ZResult<()>) -> bool {
    if s0.pc + 1 > s0.mem.len() {
        r == ZResult::<()>::Err(Error::Fatal)
    } else {
        let rloc = VariableRef::spec_decode(s0.mem[s0.pc]);
        let sa = ZView { pc: s0.pc + 1, ..s0 };
        let return_pc = s0.pc + 1;
        if !op_ok(sa, operands[0]) {
            r == ZResult::<()>::Err(Error::Fatal)
        } else {
            let addr = op_val(sa, operands[0]);
            let sb = op_step(sa, operands[0]);
            if addr == 0 {
                if write_var_ok(sb, rloc) {
                    r == ZResult::<()>::Ok(()) && s1 == write_var_step(sb, rloc, 0)
                } else {
                    r == ZResult::<()>::Err(Error::Fatal)
                }
            } else {
                let routine = 2 * addr;
                let sc = ZView { pc: routine as int, ..sb };
                match call_args(sc, seq![operands[1], operands[2], operands[3]]) {
                    None => r == ZResult::<()>::Err(Error::Fatal),
                    Some((args, sd)) => {
                        if routine + 1 > sd.mem.len() {
                            r == ZResult::<()>::Err(Error::Fatal)
                        } else {
                            let n = sd.mem[routine as int];
                            if n > 15 {
                                r == ZResult::<()>::Err(Error::Fatal)
                            } else if return_pc > 0xffffffff || sd.stack.sp + FIRST_LOCAL_OFFSET
                                + 2 * n > sd.stack.bytes.len() {
                                r == ZResult::<()>::Err(Error::Fatal)
                            } else if routine + 1 + 2 * n > sd.mem.len() {
                                r == ZResult::<()>::Err(Error::Fatal)
                            } else {
                                r == ZResult::<()>::Ok(()) && call_frame_post(
                                    sd,
                                    s1,
                                    routine as int,
                                    n,
                                    args,
                                    return_pc,
                                    rloc,
                                )
                            }
                        }
                    },
                }
            }
        }
    }
}

#[verifier::rlimit(100)]
#[verifier::spinoff_prover]
pub fn call_0x00(vm: &mut ZMachine, operands: [Operand; 4]) -> (r: ZResult<()>)
    requires
        old(vm).wf(),
    ensures
        final(vm).wf(),
        call_post(old(vm)@, final(vm)@, operands@, r),
{
    let ghost s0 = old(vm)@;
    let result_byte = vm.read_pc_byte()?;
    let result_location = VariableRef::decode(result_byte);
    let return_pc = vm.current_pc();
    let addr_value = operands[0].value(vm)?;
    if addr_value == 0 {
        vm.write_variable(result_location, 0)?;
        return Ok(());
    }
    let raw_addr = crate::ptrs::PackedAddr::new(addr_value).to_raw();
    vm.set_current_pc(raw_addr.ptr())?;
    let ghost sc = vm@;
    let ghost rest3: Seq<Operand> = seq![operands@[1], operands@[2], operands@[3]];
    proof {
        reveal_with_fuel(call_args, 5);
        assert(rest3.skip(1) =~= seq![operands@[2], operands@[3]]);
        assert(rest3.skip(1).skip(1) =~= seq![operands@[3]]);
        assert(rest3.skip(1).skip(1).skip(1) =~= Seq::<Operand>::empty());
    }
    // Evaluate the argument values before creating the new frame.
    let mut argument_values: Vec<u16> = Vec::new();
    let op1 = operands[1];
    if !matches!(op1, Operand::Omitted) {
        let v1 = op1.value(vm)?;
        argument_values.push(v1);
        let op2 = operands[2];
        if !matches!(op2, Operand::Omitted) {
            let v2 = op2.value(vm)?;
            argument_values.push(v2);
            let op3 = operands[3];
            if !matches!(op3, Operand::Omitted) {
                let v3 = op3.value(vm)?;
                argument_values.push(v3);
                proof {
                    assert(argument_values@ =~= seq![v1, v2] + seq![v3]);
                    assert(seq![v1] + (seq![v2] + (seq![v3] + Seq::<u16>::empty()))
                        =~= argument_values@);
                }
            } else {
                proof {
                    assert(seq![v1] + (seq![v2] + Seq::<u16>::empty()) =~= argument_values@);
                }
            }
        } else {
            proof {
                assert(seq![v1] + Seq::<u16>::empty() =~= argument_values@);
            }
        }
    }
    proof {
        assert(call_args(sc, rest3) == Some((argument_values@, vm@)));
    }
    let ghost args = argument_values@;
    let ghost sd = vm@;
    let num_locals = vm.read_pc_byte()?;
    if num_locals > 15 {
        return Err(Error::Fatal);
    }
    if return_pc > 0xffffffff {
        return Err(Error::Fatal);
    }
    vm.new_frame(return_pc, num_locals, result_location)?;
    let ghost sf = vm@;
    let routine = raw_addr.ptr();
    proof {
        assert(sf.stack.num_locals() == num_locals);
        assert(sc == (ZView {
            pc: routine as int,
            ..op_step(ZView { pc: s0.pc + 1, ..s0 }, operands@[0])
        }));
    }
    // The frame is set up; initialise the locals from the code.
    let mut j: u8 = 0;
    while j < num_locals
        invariant
            vm.wf(),
            j <= num_locals,
            s0 == old(vm)@,
            s0.pc + 1 <= s0.mem.len(),
            result_location == VariableRef::spec_decode(s0.mem[s0.pc]),
            op_ok(ZView { pc: s0.pc + 1, ..s0 }, operands@[0]),
            addr_value == op_val(ZView { pc: s0.pc + 1, ..s0 }, operands@[0]),
            addr_value != 0,
            routine == 2 * addr_value,
            return_pc == s0.pc + 1,
            return_pc <= 0xffffffff,
            rest3 == seq![operands@[1], operands@[2], operands@[3]],
            call_args(
                ZView { pc: routine as int, ..op_step(ZView { pc: s0.pc + 1, ..s0 }, operands@[0]) },
                rest3,
            ) == Some((args, sd)),
            routine + 1 <= sd.mem.len(),
            num_locals == sd.mem[routine as int],
            num_locals <= 15,
            sd.stack.sp + FIRST_LOCAL_OFFSET + 2 * num_locals <= sd.stack.bytes.len(),
            crate::stack::new_frame_rel(
                sd.stack,
                sf.stack,
                return_pc as int,
                num_locals as int,
                result_location,
            ),
            sf == (ZView { pc: routine + 1, stack: sf.stack, ..sd }),
            vm@ == (ZView { pc: routine + 1 + 2 * j, stack: vm@.stack, ..sd }),
            j >= num_locals ==> routine + 1 + 2 * num_locals <= sd.mem.len(),
            routine + 1 <= sd.mem.len(),
            vm@.stack.bytes.len() == sf.stack.bytes.len(),
            vm@.stack.fp == sf.stack.fp,
            vm@.stack.base_sp == sf.stack.base_sp,
            vm@.stack.sp == sf.stack.sp,
            vm@.stack.num_locals() == num_locals,
            vm@.stack.sp == vm@.stack.base_sp,
            vm@.stack.base_sp == vm@.stack.fp + FIRST_LOCAL_OFFSET + 2 * num_locals,
            forall|q: int| 0 <= q < vm@.stack.fp ==> vm@.stack.bytes[q] == sf.stack.bytes[q],
            vm@.stack.bytes[vm@.stack.fp + NUM_LOCALS_OFFSET] == sf.stack.bytes[vm@.stack.fp
                + NUM_LOCALS_OFFSET],
            vm@.stack.bytes[vm@.stack.fp + RESULT_LOCATION_OFFSET] == sf.stack.bytes[vm@.stack.fp
                + RESULT_LOCATION_OFFSET],
            word_at(vm@.stack.bytes, vm@.stack.fp as int) == word_at(
                sf.stack.bytes,
                sf.stack.fp as int,
            ),
            vm@.stack.bytes[vm@.stack.fp + PC_OFFSET] * 0x1000000 + vm@.stack.bytes[vm@.stack.fp
                + PC_OFFSET + 1] * 0x10000 + vm@.stack.bytes[vm@.stack.fp + PC_OFFSET + 2] * 0x100
                + vm@.stack.bytes[vm@.stack.fp + PC_OFFSET + 3] == sf.stack.bytes[sf.stack.fp
                + PC_OFFSET] * 0x1000000 + sf.stack.bytes[sf.stack.fp + PC_OFFSET + 1] * 0x10000
                + sf.stack.bytes[sf.stack.fp + PC_OFFSET + 2] * 0x100 + sf.stack.bytes[sf.stack.fp
                + PC_OFFSET + 3],
            forall|i: int|
                0 <= i < j ==> #[trigger] vm@.stack.local(i) == word_at(
                    sd.mem,
                    routine + 1 + 2 * i,
                ),
        decreases num_locals - j,
    {
        let ghost prev = vm@;
        let local_from_pc = vm.read_pc_word()?;
        vm.write_local(j, local_from_pc)?;
        proof {
            assert forall|i: int|
                0 <= i < j + 1 implies #[trigger] vm@.stack.local(i) == word_at(
                sd.mem,
                routine + 1 + 2 * i,
            ) by {
                if i < j {
                    assert(prev.stack.local(i) == word_at(sd.mem, routine + 1 + 2 * i));
                }
            };
        }
        j = j + 1;
    }
    // Copy in the arguments passed by call, over the defaults.
    let nargs = argument_values.len();
    let mut k: usize = 0;
    while k < nargs && k < num_locals as usize
        invariant
            vm.wf(),
            k <= nargs,
            nargs == args.len(),
            args == argument_values@,
            nargs < 4,
            routine + 1 + 2 * num_locals <= sd.mem.len(),
            s0 == old(vm)@,
            s0.pc + 1 <= s0.mem.len(),
            result_location == VariableRef::spec_decode(s0.mem[s0.pc]),
            op_ok(ZView { pc: s0.pc + 1, ..s0 }, operands@[0]),
            addr_value == op_val(ZView { pc: s0.pc + 1, ..s0 }, operands@[0]),
            addr_value != 0,
            routine == 2 * addr_value,
            return_pc == s0.pc + 1,
            return_pc <= 0xffffffff,
            rest3 == seq![operands@[1], operands@[2], operands@[3]],
            call_args(
                ZView { pc: routine as int, ..op_step(ZView { pc: s0.pc + 1, ..s0 }, operands@[0]) },
                rest3,
            ) == Some((args, sd)),
            routine + 1 <= sd.mem.len(),
            num_locals == sd.mem[routine as int],
            num_locals <= 15,
            sd.stack.sp + FIRST_LOCAL_OFFSET + 2 * num_locals <= sd.stack.bytes.len(),
            crate::stack::new_frame_rel(
                sd.stack,
                sf.stack,
                return_pc as int,
                num_locals as int,
                result_location,
            ),
            sf == (ZView { pc: routine + 1, stack: sf.stack, ..sd }),
            vm@ == (ZView { pc: routine + 1 + 2 * num_locals, stack: vm@.stack, ..sd }),
            vm@.stack.bytes.len() == sf.stack.bytes.len(),
            vm@.stack.fp == sf.stack.fp,
            vm@.stack.base_sp == sf.stack.base_sp,
            vm@.stack.sp == sf.stack.sp,
            vm@.stack.num_locals() == num_locals,
            vm@.stack.sp == vm@.stack.base_sp,
            vm@.stack.base_sp == vm@.stack.fp + FIRST_LOCAL_OFFSET + 2 * num_locals,
            forall|q: int| 0 <= q < vm@.stack.fp ==> vm@.stack.bytes[q] == sf.stack.bytes[q],
            vm@.stack.bytes[vm@.stack.fp + NUM_LOCALS_OFFSET] == sf.stack.bytes[vm@.stack.fp
                + NUM_LOCALS_OFFSET],
            vm@.stack.bytes[vm@.stack.fp + RESULT_LOCATION_OFFSET] == sf.stack.bytes[vm@.stack.fp
                + RESULT_LOCATION_OFFSET],
            word_at(vm@.stack.bytes, vm@.stack.fp as int) == word_at(
                sf.stack.bytes,
                sf.stack.fp as int,
            ),
            vm@.stack.bytes[vm@.stack.fp + PC_OFFSET] * 0x1000000 + vm@.stack.bytes[vm@.stack.fp
                + PC_OFFSET + 1] * 0x10000 + vm@.stack.bytes[vm@.stack.fp + PC_OFFSET + 2] * 0x100
                + vm@.stack.bytes[vm@.stack.fp + PC_OFFSET + 3] == sf.stack.bytes[sf.stack.fp
                + PC_OFFSET] * 0x1000000 + sf.stack.bytes[sf.stack.fp + PC_OFFSET + 1] * 0x10000
                + sf.stack.bytes[sf.stack.fp + PC_OFFSET + 2] * 0x100 + sf.stack.bytes[sf.stack.fp
                + PC_OFFSET + 3],
            forall|i: int|
                0 <= i < num_locals ==> #[trigger] vm@.stack.local(i) == (if i < k && i
                    < args.len() {
                    args[i] as int
                } else {
                    word_at(sd.mem, routine + 1 + 2 * i)
                }),
        decreases nargs - k,
    {
        let ghost prev = vm@;
        let v = argument_values[k];
        vm.write_local(k as u8, v)?;
        proof {
            assert forall|i: int|
                0 <= i < num_locals implies #[trigger] vm@.stack.local(i) == (if i < k + 1 && i
                < args.len() {
                args[i] as int
            } else {
                word_at(sd.mem, routine + 1 + 2 * i)
            }) by {
                if i != k {
                    assert(vm@.stack.local(i) == prev.stack.local(i));
                }
            };
        }
        k = k + 1;
    }
    proof {
        let f = sd.stack.sp;
        assert(vm@ == (ZView { pc: routine + 1 + 2 * num_locals, stack: vm@.stack, ..sd }));
        assert(vm@.stack.bytes.len() == sd.stack.bytes.len());
        assert(vm@.stack.fp == f);
        assert(vm@.stack.base_sp == f + FIRST_LOCAL_OFFSET + 2 * num_locals);
        assert(vm@.stack.sp == vm@.stack.base_sp);
        assert(forall|q: int| 0 <= q < f ==> vm@.stack.bytes[q] == sd.stack.bytes[q]);
        assert(word_at(vm@.stack.bytes, f as int) == sd.stack.fp);
        assert(vm@.stack.bytes[f + NUM_LOCALS_OFFSET] == num_locals);
        assert(vm@.stack.bytes[f + RESULT_LOCATION_OFFSET] == VariableRef::spec_encode(
            result_location,
        ));
        assert(vm@.stack.bytes[f + PC_OFFSET] * 0x1000000 + vm@.stack.bytes[f + PC_OFFSET + 1]
            * 0x10000 + vm@.stack.bytes[f + PC_OFFSET + 2] * 0x100 + vm@.stack.bytes[f + PC_OFFSET
            + 3] == return_pc);
        assert(forall|i: int|
            0 <= i < num_locals ==> #[trigger] vm@.stack.local(i) == (if i < args.len() {
                args[i] as int
            } else {
                word_at(sd.mem, routine + 1 + 2 * i)
            }));
        assert(call_frame_post(
            sd,
            vm@,
            routine as int,
            num_locals,
            args,
            return_pc as int,
            result_location,
        ));
    }
    Ok(())
}

/// The full effect of `ret`: the operand's value is returned from the
/// current routine.
pub open spec fn ret_post(s0: ZView, s1: ZView, operand: Operand, r: ZResult<()>) -> bool {
    if op_ok(s0, operand) {
        match ret_step(op_step(s0, operand), op_val(s0, operand)) {
            Some(s2) => r == ZResult::<()>::Ok(()) && s1 == s2,
            None => r == ZResult::<()>::Err(Error::Fatal),
        }
    } else {
        r == ZResult::<()>::Err(Error::Fatal)
    }
}

/// ret: return the operand's value from the current routine.
pub fn ret_0x0b(vm: &mut ZMachine, operand: Operand) -> (r: ZResult<()>)
    requires
        old(vm).wf(),
    ensures
        final(vm).wf(),
        ret_post(old(vm)@, final(vm)@, operand, r),
{
    let value = operand.value(vm)?;
    vm.ret_value(value)
}

/// The full effect of `ret_popped`: the top of the evaluation stack is
/// popped and returned from the current routine.
pub open spec fn ret_popped_post(s0: ZView, s1: ZView, r: ZResult<()>) -> bool {
    if crate::zmachine::read_var_ok(s0, VariableRef::Stack) {
        match ret_step(
            crate::zmachine::read_var_step(s0, VariableRef::Stack),
            crate::zmachine::read_var_val(s0, VariableRef::Stack),
        ) {
            Some(s2) => r == ZResult::<()>::Ok(()) && s1 == s2,
            None => r == ZResult::<()>::Err(Error::Fatal),
        }
    } else {
        r == ZResult::<()>::Err(Error::Fatal)
    }
}

/// ret_popped: return the top of the evaluation stack.
pub fn ret_popped_0x08(vm: &mut ZMachine) -> (r: ZResult<()>)
    requires
        old(vm).wf(),
    ensures
        final(vm).wf(),
        ret_popped_post(old(vm)@, final(vm)@, r),
{
    let value = vm.pop_stack()?;
    vm.ret_value(value)
}

/// The full effect of `rtrue` and `rfalse`: the constant is returned
/// from the current routine.
pub open spec fn const_ret_post(s0: ZView, s1: ZView, value: u16, r: ZResult<()>) -> bool {
    match ret_step(s0, value) {
        Some(s2) => r == ZResult::<()>::Ok(()) && s1 == s2,
        None => r == ZResult::<()>::Err(Error::Fatal),
    }
}

/// rtrue: return the constant 1 from the current routine.
pub fn rtrue_0x00(vm: &mut ZMachine) -> (r: ZResult<()>)
    requires
        old(vm).wf(),
    ensures
        final(vm).wf(),
        const_ret_post(old(vm)@, final(vm)@, 1, r),
{
    vm.ret_value(1)
}

/// rfalse: return the constant 0 from the current routine.
pub fn rfalse_0x01(vm: &mut ZMachine) -> (r: ZResult<()>)
    requires
        old(vm).wf(),
    ensures
        final(vm).wf(),
        const_ret_post(old(vm)@, final(vm)@, 0, r),
{
    vm.ret_value(0)
}

/// nop: do nothing.
pub fn nop_0x04(vm: &mut ZMachine) -> (r: ZResult<()>)
    requires
        old(vm).wf(),
    ensures
        final(vm).wf(),
        r == ZResult::<()>::Ok(()),
        final(vm)@ == old(vm)@,
{
    Ok(())
}

} // verus!
