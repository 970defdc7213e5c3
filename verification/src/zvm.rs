//! The fetch–decode–execute layer: one byte is fetched at the PC and
//! classified by its top two bits into the variable, short, or long
//! instruction form; operands are decoded and the matching handler runs.
//!
//! The host drives the loop: it calls `process_opcode` repeatedly,
//! flushes the output buffers, supplies an input line when a `read` is
//! pending, performs `restart` on the `Restart` sentinel, and stops
//! cleanly on `Quitting`.

use vstd::prelude::*;

use crate::memory::word_at;
use crate::ops::Operand;
use crate::result::{Error, OpcodeFamily, ZResult};
use crate::variable::VariableRef;
use crate::zmachine::{ZMachine, ZView};

verus! {

/// One operand decoded at the PC, by its 2-bit type: a large constant
/// consumes a word, a small constant or variable reference a byte, and
/// an omitted operand nothing.  `None` marks running off memory.
pub open spec fn operand_decode(s: ZView, t: u8) -> Option<(Operand, ZView)> {
    if t % 4 == 0 {
        if s.pc + 2 <= s.mem.len() {
            Some(
                (
                    Operand::LargeConstant(word_at(s.mem, s.pc) as u16),
                    ZView { pc: s.pc + 2, ..s },
                ),
            )
        } else {
            None
        }
    } else if t % 4 == 1 {
        if s.pc + 1 <= s.mem.len() {
            Some((Operand::SmallConstant(s.mem[s.pc]), ZView { pc: s.pc + 1, ..s }))
        } else {
            None
        }
    } else if t % 4 == 2 {
        if s.pc + 1 <= s.mem.len() {
            Some(
                (
                    Operand::Variable(VariableRef::spec_decode(s.mem[s.pc])),
                    ZView { pc: s.pc + 1, ..s },
                ),
            )
        } else {
            None
        }
    } else {
        Some((Operand::Omitted, s))
    }
}

/// The four operands a variable-form type byte designates, decoded in
/// order from the PC.
pub open spec fn var_operands_decode(s: ZView) -> Option<(Seq<Operand>, ZView)> {
    if s.pc + 1 > s.mem.len() {
        None
    } else {
        let t = s.mem[s.pc];
        let s1 = ZView { pc: s.pc + 1, ..s };
        match operand_decode(s1, (t / 64) % 4) {
            None => None,
            Some((o1, s2)) => match operand_decode(s2, (t / 16) % 4) {
                None => None,
                Some((o2, s3)) => match operand_decode(s3, (t / 4) % 4) {
                    None => None,
                    Some((o3, s4)) => match operand_decode(s4, t % 4) {
                        None => None,
                        Some((o4, s5)) => Some((seq![o1, o2, o3, o4], s5)),
                    },
                },
            },
        }
    }
}

/// The variable reference named by the result byte at the PC.
pub open spec fn result_target(s: ZView) -> VariableRef {
    VariableRef::spec_decode(s.mem[s.pc])
}

/// The state just past one byte at the PC.
pub open spec fn after_byte(s: ZView) -> ZView {
    ZView { pc: s.pc + 1, ..s }
}

/// The effect of dispatching a two-operand instruction: each known
/// opcode steps the machine exactly as its handler's postcondition says,
/// the result-storing ones reading their result byte first; an unknown
/// number reports itself and leaves the machine unchanged.
pub open spec fn dispatch_2op_step(
    s0: ZView,
    s1: ZView,
    start_pc: int,
    opcode: u8,
    ops: Seq<Operand>,
    r: ZResult<()>,
) -> bool {
    if opcode == 0x01 {
        crate::branch::je_post(s0, s1, ops, r)
    } else if opcode == 0x02 {
        crate::branch::jl_post(s0, s1, ops[0], ops[1], r)
    } else if opcode == 0x03 {
        crate::branch::jg_post(s0, s1, ops[0], ops[1], r)
    } else if opcode == 0x04 {
        crate::branch::chk_post(s0, s1, ops[0], ops[1], -1, false, r)
    } else if opcode == 0x05 {
        crate::branch::chk_post(s0, s1, ops[0], ops[1], 1, true, r)
    } else if opcode == 0x06 {
        crate::branch::jin_post(s0, s1, ops[0], ops[1], r)
    } else if opcode == 0x07 {
        crate::branch::test_post(s0, s1, ops[0], ops[1], r)
    } else if opcode == 0x0a {
        crate::properties::test_attr_post(s0, s1, ops[0], ops[1], r)
    } else if opcode == 0x0b {
        crate::properties::set_attr_post(s0, s1, ops[0], ops[1], r)
    } else if opcode == 0x0c {
        crate::properties::clear_attr_post(s0, s1, ops[0], ops[1], r)
    } else if opcode == 0x0d {
        crate::load::store_post(s0, s1, ops[0], ops[1], r)
    } else if opcode == 0x0e {
        crate::properties::insert_obj_post(s0, s1, ops[0], ops[1], r)
    } else if 0x08 <= opcode <= 0x18 {
        // The result-storing table: the result byte is read first.
        if s0.pc + 1 > s0.mem.len() {
            r == ZResult::<()>::Err(Error::Fatal) && s1 == s0
        } else {
            let sb = after_byte(s0);
            let v = result_target(s0);
            if opcode == 0x08 {
                crate::binop::binop_post(
                    sb,
                    s1,
                    ops[0],
                    ops[1],
                    v,
                    crate::ops::eval2_va(sb, ops[0]) | crate::ops::eval2_vb(sb, ops[0], ops[1]),
                    r,
                )
            } else if opcode == 0x09 {
                crate::binop::binop_post(
                    sb,
                    s1,
                    ops[0],
                    ops[1],
                    v,
                    crate::ops::eval2_va(sb, ops[0]) & crate::ops::eval2_vb(sb, ops[0], ops[1]),
                    r,
                )
            } else if opcode == 0x0f {
                crate::load::loadw_post(sb, s1, ops[0], ops[1], v, r)
            } else if opcode == 0x10 {
                crate::load::loadb_post(sb, s1, ops[0], ops[1], v, r)
            } else if opcode == 0x11 {
                crate::properties::get_prop_post(sb, s1, ops[0], ops[1], v, r)
            } else if opcode == 0x12 {
                crate::properties::get_prop_addr_post(sb, s1, ops[0], ops[1], v, r)
            } else if opcode == 0x13 {
                crate::properties::get_next_prop_post(sb, s1, ops[0], ops[1], v, r)
            } else if opcode == 0x14 {
                crate::binop::binop_post(
                    sb,
                    s1,
                    ops[0],
                    ops[1],
                    v,
                    crate::ops::wrap16(
                        crate::ops::to_signed(crate::ops::eval2_va(sb, ops[0]))
                            + crate::ops::to_signed(crate::ops::eval2_vb(sb, ops[0], ops[1])),
                    ),
                    r,
                )
            } else if opcode == 0x15 {
                crate::binop::binop_post(
                    sb,
                    s1,
                    ops[0],
                    ops[1],
                    v,
                    crate::ops::wrap16(
                        crate::ops::to_signed(crate::ops::eval2_va(sb, ops[0]))
                            - crate::ops::to_signed(crate::ops::eval2_vb(sb, ops[0], ops[1])),
                    ),
                    r,
                )
            } else if opcode == 0x16 {
                crate::binop::binop_post(
                    sb,
                    s1,
                    ops[0],
                    ops[1],
                    v,
                    crate::ops::wrap16(
                        crate::ops::to_signed(crate::ops::eval2_va(sb, ops[0]))
                            * crate::ops::to_signed(crate::ops::eval2_vb(sb, ops[0], ops[1])),
                    ),
                    r,
                )
            } else if opcode == 0x17 {
                crate::binop::div_post(sb, s1, ops[0], ops[1], v, r)
            } else {
                crate::binop::mod_post(sb, s1, ops[0], ops[1], v, r)
            }
        }
    } else {
        r == ZResult::<()>::Err(Error::UnknownOpcode(OpcodeFamily::TwoOp, opcode, start_pc as usize))
            && s1 == s0
    }
}

/// The effect of a zero-operand instruction.
pub open spec fn zeroop_step(
    s0: ZView,
    s1: ZView,
    start_pc: int,
    op: u8,
    r: ZResult<()>,
) -> bool {
    if op == 0x00 {
        crate::call::const_ret_post(s0, s1, 1, r)
    } else if op == 0x01 {
        crate::call::const_ret_post(s0, s1, 0, r)
    } else if op == 0x02 {
        crate::text::print_post(s0, s1, r)
    } else if op == 0x03 {
        crate::text::print_ret_post(s0, s1, r)
    } else if op == 0x04 {
        r == ZResult::<()>::Ok(()) && s1 == s0
    } else if op == 0x05 {
        save_post(s0, s1, r)
    } else if op == 0x06 {
        match crate::branch::branch_step(s0, false) {
            Some(s2) => r == ZResult::<()>::Ok(()) && s1 == s2,
            None => r == ZResult::<()>::Err(Error::Fatal),
        }
    } else if op == 0x07 {
        r == ZResult::<()>::Err(Error::Restart) && s1 == s0
    } else if op == 0x08 {
        crate::call::ret_popped_post(s0, s1, r)
    } else if op == 0x09 {
        crate::stackops::pop_post(s0, s1, r)
    } else if op == 0x0a {
        r == ZResult::<()>::Err(Error::Quitting) && s1 == s0
    } else if op == 0x0b {
        crate::text::new_line_post(s0, s1, r)
    } else if op == 0x0c {
        crate::text::show_status_post(s0, s1, r)
    } else if op == 0x0d {
        match crate::branch::branch_step(s0, verify_cond(s0.mem)) {
            Some(s2) => r == ZResult::<()>::Ok(()) && s1 == s2,
            None => r == ZResult::<()>::Err(Error::Fatal),
        }
    } else {
        r == ZResult::<()>::Err(Error::UnknownOpcode(OpcodeFamily::ZeroOp, op, start_pc as usize))
            && s1 == s0
    }
}

/// The effect of a one-operand instruction; the storing ones read their
/// result byte first.
pub open spec fn oneop_step(
    s0: ZView,
    s1: ZView,
    start_pc: int,
    op: u8,
    operand: Operand,
    r: ZResult<()>,
) -> bool {
    if op == 0x00 {
        crate::branch::jz_post(s0, s1, operand, r)
    } else if op == 0x05 {
        crate::load::inc_post(s0, s1, operand, r)
    } else if op == 0x06 {
        crate::load::dec_post(s0, s1, operand, r)
    } else if op == 0x07 {
        crate::text::print_addr_post(s0, s1, operand, r)
    } else if op == 0x09 {
        crate::properties::remove_obj_post(s0, s1, operand, r)
    } else if op == 0x0a {
        crate::text::print_obj_post(s0, s1, operand, r)
    } else if op == 0x0b {
        crate::call::ret_post(s0, s1, operand, r)
    } else if op == 0x0c {
        crate::branch::jump_post(s0, s1, operand, r)
    } else if op == 0x0d {
        crate::text::print_paddr_post(s0, s1, operand, r)
    } else if op == 0x01 || op == 0x02 || op == 0x03 || op == 0x04 || op == 0x0e {
        if s0.pc + 1 > s0.mem.len() {
            r == ZResult::<()>::Err(Error::Fatal) && s1 == s0
        } else {
            let sb = after_byte(s0);
            let v = result_target(s0);
            if op == 0x01 {
                crate::branch::get_sibling_post(sb, s1, operand, v, r)
            } else if op == 0x02 {
                crate::branch::get_child_post(sb, s1, operand, v, r)
            } else if op == 0x03 {
                crate::properties::get_parent_post(sb, s1, operand, v, r)
            } else if op == 0x04 {
                crate::properties::get_prop_len_post(sb, s1, operand, v, r)
            } else {
                crate::load::load_post(sb, s1, operand, v, r)
            }
        }
    } else {
        r == ZResult::<()>::Err(Error::UnknownOpcode(OpcodeFamily::OneOp, op, start_pc as usize))
            && s1 == s0
    }
}

/// The effect of an instruction from the variable table; `random` reads
/// its result byte before its handler runs.
pub open spec fn varop_step(
    s0: ZView,
    s1: ZView,
    start_pc: int,
    n: u8,
    ops: Seq<Operand>,
    r: ZResult<()>,
) -> bool {
    if n == 0x00 {
        crate::call::call_post(s0, s1, ops, r)
    } else if n == 0x01 {
        crate::load::storew_post(s0, s1, ops, r)
    } else if n == 0x02 {
        crate::load::storeb_post(s0, s1, ops, r)
    } else if n == 0x03 {
        crate::properties::put_prop_post(s0, s1, ops, r)
    } else if n == 0x04 {
        crate::input::read_post(s0, s1, ops, r)
    } else if n == 0x05 {
        crate::text::print_char_post(s0, s1, ops, r)
    } else if n == 0x06 {
        crate::text::print_num_post(s0, s1, ops, r)
    } else if n == 0x07 {
        if s0.pc + 1 > s0.mem.len() {
            r == ZResult::<()>::Err(Error::Fatal) && s1 == s0
        } else {
            crate::load::random_post(after_byte(s0), s1, ops, result_target(s0), r)
        }
    } else if n == 0x08 {
        crate::stackops::push_post(s0, s1, ops, r)
    } else if n == 0x09 {
        crate::stackops::pull_post(s0, s1, ops, r)
    } else if n == 0x0a || n == 0x0b || n == 0x13 || n == 0x14 {
        r == ZResult::<()>::Ok(()) && s1 == s0
    } else {
        r == ZResult::<()>::Err(Error::UnknownOpcode(OpcodeFamily::VarOp, n, start_pc as usize))
            && s1 == s0
    }
}

/// The errors a dispatch step may surface: a fatal condition, one of the
/// two control sentinels, or an opcode this interpreter does not know.
pub open spec fn step_error(e: Error) -> bool {
    match e {
        Error::Fatal => true,
        Error::Quitting => true,
        Error::Restart => true,
        Error::UnknownOpcode(_, _, _) => true,
        _ => false,
    }
}

/// The effect of a variable-form instruction: the type byte and
/// operands are decoded, then bit 5 of the first byte selects the
/// two-operand or the variable table.
pub open spec fn var_form_step(s0: ZView, s1: ZView, first_byte: u8, r: ZResult<()>) -> bool {
    let start_pc = if s0.pc >= 1 {
        s0.pc - 1
    } else {
        0
    };
    match var_operands_decode(s0) {
        None => r == ZResult::<()>::Err(Error::Fatal),
        Some((ops, sd)) => if (first_byte / 32) % 2 == 0 {
            dispatch_2op_step(sd, s1, start_pc, first_byte % 32, ops, r)
        } else {
            varop_step(sd, s1, start_pc, first_byte % 32, ops, r)
        },
    }
}

/// The effect of a short-form instruction: one operand of the type bits
/// 4 and 5 give; an omitted operand makes it a zero-operand instruction.
pub open spec fn short_form_step(s0: ZView, s1: ZView, first_byte: u8, r: ZResult<()>) -> bool {
    let start_pc = if s0.pc >= 1 {
        s0.pc - 1
    } else {
        0
    };
    match operand_decode(s0, (first_byte / 16) % 4) {
        None => r == ZResult::<()>::Err(Error::Fatal) && s1 == s0,
        Some((op, sd)) => match op {
            Operand::Omitted => zeroop_step(sd, s1, start_pc, first_byte % 16, r),
            _ => oneop_step(sd, s1, start_pc, first_byte % 16, op, r),
        },
    }
}

/// The effect of a long-form instruction: always two operands, small
/// constant or variable as bits 6 and 5 say, then the two-operand table.
pub open spec fn long_form_step(s0: ZView, s1: ZView, first_byte: u8, r: ZResult<()>) -> bool {
    let start_pc = if s0.pc >= 1 {
        s0.pc - 1
    } else {
        0
    };
    let t1: u8 = if (first_byte / 64) % 2 == 0 {
        1
    } else {
        2
    };
    let t2: u8 = if (first_byte / 32) % 2 == 0 {
        1
    } else {
        2
    };
    match operand_decode(s0, t1) {
        None => r == ZResult::<()>::Err(Error::Fatal),
        Some((o1, sa)) => match operand_decode(sa, t2) {
            None => r == ZResult::<()>::Err(Error::Fatal),
            Some((o2, sd)) => dispatch_2op_step(
                sd,
                s1,
                start_pc,
                first_byte % 32,
                seq![o1, o2, Operand::Omitted, Operand::Omitted],
                r,
            ),
        },
    }
}

/// The effect of one full fetch-decode-execute step: the first byte's
/// top two bits select the instruction form.  A pending input request
/// must be answered before stepping.
pub open spec fn opcode_step(s0: ZView, s1: ZView, r: ZResult<()>) -> bool {
    match s0.pending_read {
        Some(_) => r == ZResult::<()>::Err(Error::Fatal) && s1 == s0,
        None => {
            if s0.pc + 1 > s0.mem.len() {
                r == ZResult::<()>::Err(Error::Fatal) && s1 == s0
            } else {
                let b = s0.mem[s0.pc];
                let sa = after_byte(s0);
                if b >= 0xc0 {
                    var_form_step(sa, s1, b, r)
                } else if b >= 0x80 {
                    short_form_step(sa, s1, b, r)
                } else {
                    long_form_step(sa, s1, b, r)
                }
            }
        },
    }
}

/// quit: stop execution cleanly, through the `Quitting` sentinel.
pub fn quit_0x0a(vm: &mut ZMachine) -> (r: ZResult<()>)
    requires
        old(vm).wf(),
    ensures
        final(vm).wf(),
        r == ZResult::<()>::Err(Error::Quitting),
        final(vm)@ == old(vm)@,
{
    Err(Error::Quitting)
}

/// restart: ask the loop to reload dynamic memory and start over,
/// through the `Restart` sentinel.
pub fn restart_0x07(vm: &mut ZMachine) -> (r: ZResult<()>)
    requires
        old(vm).wf(),
    ensures
        final(vm).wf(),
        r == ZResult::<()>::Err(Error::Restart),
        final(vm)@ == old(vm)@,
{
    Err(Error::Restart)
}

/// The full effect of `save`: when the stack's frame chain decomposes —
/// the one way serialization can fail — the produced image sits in the
/// save-output buffer and the branch is taken as for success; otherwise
/// the branch is taken as for failure.
/// A Quetzal image for the machine state `s0`: `FORM`/`IFZS` tags, the
/// `IFhd` chunk, and the `UMem` copy of dynamic memory at fixed offsets.
pub open spec fn save_image_ok(s0: ZView, q: Seq<u8>) -> bool {
    let umem = crate::quetzal::umem_chunk(s0.mem, s0.sbase);
    let ts = crate::stack::frames_chain(s0.stack.bytes, s0.stack.fp, s0.stack.sp).unwrap();
    let stks = crate::quetzal::frames_chunk_bytes(ts);
    &&& q.len() == 34 + umem.len() + stks.len()
    &&& q.subrange(0, 4) == seq![70u8, 79u8, 82u8, 77u8]
    &&& q.subrange(8, 12) == seq![73u8, 70u8, 90u8, 83u8]
    &&& q.subrange(12, 34) == crate::quetzal::ifhd_chunk(s0.mem, s0.pc)
    &&& q.subrange(34, 34 + umem.len() as int) == umem
    &&& q.subrange(34 + umem.len() as int, 34 + umem.len() as int + stks.len() as int) == stks
}

pub open spec fn save_post(s0: ZView, s1: ZView, r: ZResult<()>) -> bool {
    if crate::stack::frames_chain(s0.stack.bytes, s0.stack.fp, s0.stack.sp).is_some() {
        exists|q: Seq<u8>|
            save_image_ok(s0, q) && (match crate::branch::branch_step(
                #[trigger] crate::zmachine::with_save(s0, q),
                true,
            ) {
                Some(s2) => r == ZResult::<()>::Ok(()) && s1 == s2,
                None => r == ZResult::<()>::Err(Error::Fatal),
            })
    } else {
        match crate::branch::branch_step(s0, false) {
            Some(s2) => r == ZResult::<()>::Ok(()) && s1 == s2,
            None => r == ZResult::<()>::Err(Error::Fatal),
        }
    }
}

/// save: serialize the machine state for the host and branch on success.
pub fn save_0x05(vm: &mut ZMachine) -> (r: ZResult<()>)
    requires
        old(vm).wf(),
    ensures
        final(vm).wf(),
        save_post(old(vm)@, final(vm)@, r),
{
    let ok = vm.save();
    crate::branch::branch_on_condition(vm, ok.is_ok())
}

/// restore: not supported by this interpreter; the branch is read and
/// taken as for a failed restore.
pub fn restore_0x06(vm: &mut ZMachine) -> (r: ZResult<()>)
    requires
        old(vm).wf(),
    ensures
        final(vm).wf(),
        match crate::branch::branch_step(old(vm)@, false) {
            Some(s1) => r == ZResult::<()>::Ok(()) && final(vm)@ == s1,
            None => r == ZResult::<()>::Err(Error::Fatal),
        },
{
    crate::branch::branch_on_condition(vm, false)
}

/// The sum, modulo 0x10000, of the bytes of `m` in `[i, end)`.
pub open spec fn byte_sum(m: Seq<u8>, i: int, end: int) -> int
    decreases end - i,
{
    if i >= end {
        0
    } else {
        (byte_sum(m, i + 1, end) + m[i]) % 0x10000
    }
}

/// The checksum condition `verify` tests: the bytes from the end of the
/// header to the header's useful length (clamped to the image), summed
/// modulo 0x10000, against the header word at 0x1c.
pub open spec fn verify_cond(m: Seq<u8>) -> bool {
    let flen = 2 * word_at(m, 0x1a);
    let end = if flen > m.len() {
        m.len() as int
    } else {
        flen
    };
    byte_sum(m, 64, end) == word_at(m, 0x1c)
}

/// verify: sum the story bytes past the header, modulo 0x10000, compare
/// with the header checksum, and branch on a match.
pub fn verify_0x0d(vm: &mut ZMachine) -> (r: ZResult<()>)
    requires
        old(vm).wf(),
    ensures
        final(vm).wf(),
        match crate::branch::branch_step(old(vm)@, verify_cond(old(vm)@.mem)) {
            Some(s1) => r == ZResult::<()>::Ok(()) && final(vm)@ == s1,
            None => r == ZResult::<()>::Err(Error::Fatal),
        },
{
    let m = vm.memory();
    let flen = m.file_length() as usize;
    let msize = m.size();
    let clamped = if flen > msize {
        msize
    } else {
        flen
    };
    let ghost spec_end: int = clamped as int;
    let end = if clamped < 64 {
        64
    } else {
        clamped
    };
    proof {
        if spec_end < 64 {
            assert(byte_sum(m@, 64, spec_end) == 0);
            assert(byte_sum(m@, 64, 64) == 0);
        }
    }
    let mut sum: u16 = 0;
    let mut i: usize = end;
    while i > 64
        invariant
            64 <= end <= m@.len(),
            64 <= i <= end,
            m@ == vm@.mem,
            sum == byte_sum(m@, i as int, end as int),
        decreases i,
    {
        i = i - 1;
        let b = m.u8_at_index(i);
        sum = crate::binop::wrap_add(sum, b as u16);
        proof {
            assert(crate::ops::to_signed(sum) >= 0 || true);
        }
    }
    let expected = m.u16_at_index(0x1c);
    crate::branch::branch_on_condition(vm, sum == expected)
}

/// split_window: a single-window interpreter takes no action.
pub fn split_window_0x0a(vm: &mut ZMachine) -> (r: ZResult<()>)
    requires
        old(vm).wf(),
    ensures
        final(vm).wf(),
        r == ZResult::<()>::Ok(()),
        final(vm)@ == old(vm)@,
{
    Ok(())
}

/// set_window: a single-window interpreter takes no action.
pub fn set_window_0x0b(vm: &mut ZMachine) -> (r: ZResult<()>)
    requires
        old(vm).wf(),
    ensures
        final(vm).wf(),
        r == ZResult::<()>::Ok(()),
        final(vm)@ == old(vm)@,
{
    Ok(())
}

/// output_stream: only the screen stream exists here; no action.
pub fn output_stream_0x13(vm: &mut ZMachine) -> (r: ZResult<()>)
    requires
        old(vm).wf(),
    ensures
        final(vm).wf(),
        r == ZResult::<()>::Ok(()),
        final(vm)@ == old(vm)@,
{
    Ok(())
}

/// input_stream: only the keyboard stream exists here; no action.
pub fn input_stream_0x14(vm: &mut ZMachine) -> (r: ZResult<()>)
    requires
        old(vm).wf(),
    ensures
        final(vm).wf(),
        r == ZResult::<()>::Ok(()),
        final(vm)@ == old(vm)@,
{
    Ok(())
}

impl ZMachine {
    /// Fetch and execute one instruction.  `Quitting` and `Restart` pass
    /// through for the loop to handle.
    pub fn process_opcode(&mut self) -> (r: ZResult<()>)
        requires
            old(self).wf(),
        ensures
            final(self).wf(),
            r.is_err() ==> step_error(r.unwrap_err()),
            opcode_step(old(self)@, final(self)@, r),
    {
        if self.pending_read().is_some() {
            return Err(Error::Fatal);
        }
        let first_byte = self.read_pc_byte()?;
        if first_byte >= 0xc0 {
            self.process_variable_opcode(first_byte)
        } else if first_byte >= 0x80 {
            self.process_short_opcode(first_byte)
        } else {
            self.process_long_opcode(first_byte)
        }
    }

    /// A variable-form instruction: the low five bits are the opcode
    /// number; bit 5 selects the two-operand table or the variable table.
    pub fn process_variable_opcode(&mut self, first_byte: u8) -> (r: ZResult<()>)
        requires
            old(self).wf(),
        ensures
            final(self).wf(),
            r.is_err() ==> step_error(r.unwrap_err()),
            var_form_step(old(self)@, final(self)@, first_byte, r),
    {
        let opcode_number = first_byte % 32;
        let start_pc = self.current_pc();
        let start_pc = if start_pc >= 1 {
            start_pc - 1
        } else {
            0
        };
        if (first_byte / 32) % 2 == 0 {
            let operands = self.read_var_operands()?;
            self.dispatch_2op(start_pc, opcode_number, operands)
        } else {
            let operands = self.read_var_operands()?;
            match opcode_number {
                0x00 => crate::call::call_0x00(self, operands),
                0x01 => crate::load::storew_0x01(self, operands),
                0x02 => crate::load::storeb_0x02(self, operands),
                0x03 => crate::properties::put_prop_0x03(self, operands),
                0x04 => crate::input::read_0x04(self, operands),
                0x05 => crate::text::print_char_0x05(self, operands),
                0x06 => crate::text::print_num_0x06(self, operands),
                0x07 => {
                    let encoded = self.read_pc_byte()?;
                    let variable = VariableRef::decode(encoded);
                    crate::load::random_0x07(self, operands, variable)
                },
                0x08 => crate::stackops::push_0x08(self, operands),
                0x09 => crate::stackops::pull_0x09(self, operands),
                0x0a => split_window_0x0a(self),
                0x0b => set_window_0x0b(self),
                0x13 => output_stream_0x13(self),
                0x14 => input_stream_0x14(self),
                _ => Err(Error::UnknownOpcode(OpcodeFamily::VarOp, opcode_number, start_pc)),
            }
        }
    }

    /// Read the type byte of a variable-form instruction and the four
    /// operands its 2-bit fields designate.
    pub fn read_var_operands(&mut self) -> (r: ZResult<[Operand; 4]>)
        requires
            old(self).wf(),
        ensures
            final(self).wf(),
            match var_operands_decode(old(self)@) {
                Some((ops, s1)) => r.is_ok() && r.unwrap()@ == ops && final(self)@ == s1,
                None => r == ZResult::<[Operand; 4]>::Err(Error::Fatal),
            },
    {
        let operand_types = self.read_pc_byte()?;
        let operand1 = self.read_operand_of_type((operand_types / 64) % 4)?;
        let operand2 = self.read_operand_of_type((operand_types / 16) % 4)?;
        let operand3 = self.read_operand_of_type((operand_types / 4) % 4)?;
        let operand4 = self.read_operand_of_type(operand_types % 4)?;
        Ok([operand1, operand2, operand3, operand4])
    }

    /// Read one operand of the designated type: a large constant (word),
    /// a small constant (byte), a variable reference (byte), or omitted.
    pub fn read_operand_of_type(&mut self, operand_type: u8) -> (r: ZResult<Operand>)
        requires
            old(self).wf(),
        ensures
            final(self).wf(),
            match operand_decode(old(self)@, operand_type) {
                Some((op, s1)) => r == ZResult::<Operand>::Ok(op) && final(self)@ == s1,
                None => r == ZResult::<Operand>::Err(Error::Fatal) && final(self)@ == old(self)@,
            },
    {
        let t = operand_type % 4;
        if t == 0 {
            let w = self.read_pc_word()?;
            Ok(Operand::LargeConstant(w))
        } else if t == 1 {
            let b = self.read_pc_byte()?;
            Ok(Operand::SmallConstant(b))
        } else if t == 2 {
            let b = self.read_pc_byte()?;
            Ok(Operand::Variable(VariableRef::decode(b)))
        } else {
            Ok(Operand::Omitted)
        }
    }

    /// A short-form instruction: the low four bits are the opcode number
    /// and bits 4–5 the single operand's type; an omitted operand makes
    /// it a zero-operand instruction.
    pub fn process_short_opcode(&mut self, first_byte: u8) -> (r: ZResult<()>)
        requires
            old(self).wf(),
        ensures
            final(self).wf(),
            r.is_err() ==> step_error(r.unwrap_err()),
            short_form_step(old(self)@, final(self)@, first_byte, r),
    {
        let op = first_byte % 16;
        let start_pc = self.current_pc();
        let start_pc = if start_pc >= 1 {
            start_pc - 1
        } else {
            0
        };
        let operand_type = (first_byte / 16) % 4;
        let operand = self.read_operand_of_type(operand_type)?;
        match operand {
            Operand::Omitted => self.process_0op(start_pc, op),
            _ => self.process_1op(start_pc, op, operand),
        }
    }

    /// Dispatch a zero-operand instruction.
    pub fn process_0op(&mut self, start_pc: usize, op: u8) -> (r: ZResult<()>)
        requires
            old(self).wf(),
        ensures
            final(self).wf(),
            r.is_err() ==> step_error(r.unwrap_err()),
            zeroop_step(old(self)@, final(self)@, start_pc as int, op, r),
    {
        match op {
            0x00 => crate::call::rtrue_0x00(self),
            0x01 => crate::call::rfalse_0x01(self),
            0x02 => crate::text::print_0x02(self),
            0x03 => crate::text::print_ret_0x03(self),
            0x04 => crate::call::nop_0x04(self),
            0x05 => save_0x05(self),
            0x06 => restore_0x06(self),
            0x07 => restart_0x07(self),
            0x08 => crate::call::ret_popped_0x08(self),
            0x09 => crate::stackops::pop_0x09(self),
            0x0a => quit_0x0a(self),
            0x0b => crate::text::new_line_0x0b(self),
            0x0c => crate::text::show_status_0x0c(self),
            0x0d => verify_0x0d(self),
            _ => Err(Error::UnknownOpcode(OpcodeFamily::ZeroOp, op, start_pc)),
        }
    }

    /// Dispatch a one-operand instruction; the result-storing ones read
    /// their result target byte first.
    pub fn process_1op(&mut self, start_pc: usize, op: u8, operand: Operand) -> (r: ZResult<()>)
        requires
            old(self).wf(),
        ensures
            final(self).wf(),
            r.is_err() ==> step_error(r.unwrap_err()),
            oneop_step(old(self)@, final(self)@, start_pc as int, op, operand, r),
    {
        match op {
            0x00 => crate::branch::jz_0x00(self, operand),
            0x01 => {
                let v = self.read_result_variable()?;
                crate::branch::get_sibling_0x01(self, operand, v)
            },
            0x02 => {
                let v = self.read_result_variable()?;
                crate::branch::get_child_0x02(self, operand, v)
            },
            0x03 => {
                let v = self.read_result_variable()?;
                crate::properties::get_parent_0x03(self, operand, v)
            },
            0x04 => {
                let v = self.read_result_variable()?;
                crate::properties::get_prop_len_0x04(self, operand, v)
            },
            0x05 => crate::load::inc_0x05(self, operand),
            0x06 => crate::load::dec_0x06(self, operand),
            0x07 => crate::text::print_addr_0x07(self, operand),
            0x09 => crate::properties::remove_obj_0x09(self, operand),
            0x0a => crate::text::print_obj_0x0a(self, operand),
            0x0b => crate::call::ret_0x0b(self, operand),
            0x0c => crate::branch::jump_0x0c(self, operand),
            0x0d => crate::text::print_paddr_0x0d(self, operand),
            0x0e => {
                let v = self.read_result_variable()?;
                crate::load::load_0x0e(self, operand, v)
            },
            _ => Err(Error::UnknownOpcode(OpcodeFamily::OneOp, op, start_pc)),
        }
    }

    /// Read the result-target byte of a storing opcode.
    pub fn read_result_variable(&mut self) -> (r: ZResult<VariableRef>)
        requires
            old(self).wf(),
        ensures
            final(self).wf(),
            old(self)@.pc + 1 <= old(self)@.mem.len() ==> r == ZResult::<VariableRef>::Ok(
                result_target(old(self)@),
            ) && final(self)@ == after_byte(old(self)@),
            old(self)@.pc + 1 > old(self)@.mem.len() ==> r == ZResult::<VariableRef>::Err(
                Error::Fatal,
            ) && final(self)@ == old(self)@,
    {
        let encoded = self.read_pc_byte()?;
        Ok(VariableRef::decode(encoded))
    }

    /// A long-form instruction: always two operands, whose types bits 5
    /// and 6 select (small constant or variable).
    pub fn process_long_opcode(&mut self, first_byte: u8) -> (r: ZResult<()>)
        requires
            old(self).wf(),
        ensures
            final(self).wf(),
            r.is_err() ==> step_error(r.unwrap_err()),
            long_form_step(old(self)@, final(self)@, first_byte, r),
    {
        let start_pc = self.current_pc();
        let start_pc = if start_pc >= 1 {
            start_pc - 1
        } else {
            0
        };
        let opcode_number = first_byte % 32;
        let first = self.read_operand_of_type(
            if (first_byte / 64) % 2 == 0 {
                1
            } else {
                2
            },
        )?;
        let second = self.read_operand_of_type(
            if (first_byte / 32) % 2 == 0 {
                1
            } else {
                2
            },
        )?;
        let operands = [first, second, Operand::Omitted, Operand::Omitted];
        self.dispatch_2op(start_pc, opcode_number, operands)
    }

    /// Dispatch a two-operand instruction.
    pub fn dispatch_2op(&mut self, start_pc: usize, opcode: u8, operands: [Operand; 4]) -> (r:
        ZResult<()>)
        requires
            old(self).wf(),
        ensures
            final(self).wf(),
            r.is_err() ==> step_error(r.unwrap_err()),
            dispatch_2op_step(old(self)@, final(self)@, start_pc as int, opcode, operands@, r),
    {
        match opcode {
            0x01 => crate::branch::je_0x01(self, operands),
            0x02 => crate::branch::jl_0x02(self, operands[0], operands[1]),
            0x03 => crate::branch::jg_0x03(self, operands[0], operands[1]),
            0x04 => crate::branch::dec_chk_0x04(self, operands[0], operands[1]),
            0x05 => crate::branch::inc_chk_0x05(self, operands[0], operands[1]),
            0x06 => crate::branch::jin_0x06(self, operands[0], operands[1]),
            0x07 => crate::branch::test_0x07(self, operands[0], operands[1]),
            0x08 => {
                let v = self.read_result_variable()?;
                crate::binop::or_0x08(self, operands[0], operands[1], v)
            },
            0x09 => {
                let v = self.read_result_variable()?;
                crate::binop::and_0x09(self, operands[0], operands[1], v)
            },
            0x0a => crate::properties::test_attr_0x0a(self, operands[0], operands[1]),
            0x0b => crate::properties::set_attr_0x0b(self, operands[0], operands[1]),
            0x0c => crate::properties::clear_attr_0x0c(self, operands[0], operands[1]),
            0x0d => crate::load::store_0x0d(self, operands[0], operands[1]),
            0x0e => crate::properties::insert_obj_0x0e(self, operands[0], operands[1]),
            0x0f => {
                let v = self.read_result_variable()?;
                crate::load::loadw_0x0f(self, operands[0], operands[1], v)
            },
            0x10 => {
                let v = self.read_result_variable()?;
                crate::load::loadb_0x10(self, operands[0], operands[1], v)
            },
            0x11 => {
                let v = self.read_result_variable()?;
                crate::properties::get_prop_0x11(self, operands[0], operands[1], v)
            },
            0x12 => {
                let v = self.read_result_variable()?;
                crate::properties::get_prop_addr_0x12(self, operands[0], operands[1], v)
            },
            0x13 => {
                let v = self.read_result_variable()?;
                crate::properties::get_next_prop_0x13(self, operands[0], operands[1], v)
            },
            0x14 => {
                let v = self.read_result_variable()?;
                crate::binop::add_0x14(self, operands[0], operands[1], v)
            },
            0x15 => {
                let v = self.read_result_variable()?;
                crate::binop::sub_0x15(self, operands[0], operands[1], v)
            },
            0x16 => {
                let v = self.read_result_variable()?;
                crate::binop::mul_0x16(self, operands[0], operands[1], v)
            },
            0x17 => {
                let v = self.read_result_variable()?;
                crate::binop::div_0x17(self, operands[0], operands[1], v)
            },
            0x18 => {
                let v = self.read_result_variable()?;
                crate::binop::mod_0x18(self, operands[0], operands[1], v)
            },
            _ => Err(Error::UnknownOpcode(OpcodeFamily::TwoOp, opcode, start_pc)),
        }
    }
}

} // verus!
