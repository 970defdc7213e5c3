//! Branch-taking opcodes and the branch-target format.
//!
//! After its operands, a branching opcode reads one byte: bit 7 is the
//! polarity (branch on true or on false), bit 6 the length.  A one-byte
//! target keeps an unsigned 0..63 offset in its low six bits; otherwise
//! the low six bits and a second byte form a 14-bit signed offset.  When
//! the condition matches the polarity: offset 0 returns false from the
//! current routine, offset 1 returns true, and any other offset moves the
//! PC by `offset - 2`.

use vstd::prelude::*;

use crate::ops::{op_ok, op_step, op_val, to_signed, Operand};
use crate::result::{Error, ZResult};
use crate::variable::VariableRef;
use crate::zmachine::{
    read_var_ok, read_var_step, read_var_val, ret_step, write_var_ok, write_var_step, ZMachine,
    ZView,
};

verus! {

/// Bit 7 of the first branch byte: branch when the condition is true.
pub open spec fn branch_polarity(b1: u8) -> bool {
    b1 >= 128
}

/// Bit 6 of the first branch byte: the target is a single byte.
pub open spec fn branch_one_byte(b1: u8) -> bool {
    (b1 / 64) % 2 == 1
}

/// The 14-bit signed offset formed from the low six bits of `b1` and all
/// of `b2`; bit 13 is the sign.
pub open spec fn fourteen_bit(b1: u8, b2: u8) -> int {
    let first6 = b1 % 64;
    let v = first6 * 256 + b2;
    if first6 >= 32 {
        v - 16384
    } else {
        v
    }
}

/// The offset a branch byte pair denotes.
pub open spec fn branch_offset(b1: u8, b2: u8) -> int {
    if branch_one_byte(b1) {
        (b1 % 64) as int
    } else {
        fourteen_bit(b1, b2)
    }
}

/// Apply a decoded branch: do nothing when not taken; return false or
/// true from the routine for offsets 0 and 1; otherwise move the PC.
pub open spec fn branch_apply(s1: ZView, taken: bool, offset: int) -> Option<ZView> {
    if !taken {
        Some(s1)
    } else if offset == 0 {
        ret_step(s1, 0)
    } else if offset == 1 {
        ret_step(s1, 1)
    } else if 0 <= s1.pc + offset - 2 <= usize::MAX {
        Some(ZView { pc: s1.pc + offset - 2, ..s1 })
    } else {
        None
    }
}

/// The full effect of reading the branch target at the PC and acting on
/// `cond`.
pub open spec fn branch_step(s: ZView, cond: bool) -> Option<ZView> {
    if s.pc + 1 > s.mem.len() {
        None
    } else {
        let b1 = s.mem[s.pc];
        if branch_one_byte(b1) {
            branch_apply(
                ZView { pc: s.pc + 1, ..s },
                cond == branch_polarity(b1),
                (b1 % 64) as int,
            )
        } else if s.pc + 2 > s.mem.len() {
            None
        } else {
            branch_apply(
                ZView { pc: s.pc + 2, ..s },
                cond == branch_polarity(b1),
                fourteen_bit(b1, s.mem[s.pc + 1]),
            )
        }
    }
}

/// The branch bytes encoding `(polarity, one_byte, offset)`.  A one-byte
/// target uses only the first byte.
pub open spec fn encode_branch(polarity: bool, one_byte: bool, offset: int) -> (u8, u8) {
    let pol: int = if polarity {
        128
    } else {
        0
    };
    if one_byte {
        ((pol + 64 + offset) as u8, 0u8)
    } else {
        let off14 = if offset < 0 {
            offset + 16384
        } else {
            offset
        };
        ((pol + off14 / 256) as u8, (off14 % 256) as u8)
    }
}

/// Branch encoding round trip: for every polarity, length and
/// representable offset, decoding the encoded byte pair yields the same
/// polarity, length and offset.
pub proof fn lemma_branch_round_trip(polarity: bool, one_byte: bool, offset: int)
    requires
        one_byte ==> 0 <= offset < 64,
        !one_byte ==> -8192 <= offset < 8192,
    ensures
        branch_polarity(encode_branch(polarity, one_byte, offset).0) == polarity,
        branch_one_byte(encode_branch(polarity, one_byte, offset).0) == one_byte,
        branch_offset(
            encode_branch(polarity, one_byte, offset).0,
            encode_branch(polarity, one_byte, offset).1,
        ) == offset,
{
    let (b1, b2) = encode_branch(polarity, one_byte, offset);
    if one_byte {
        assert(b1 % 64 == offset);
    } else {
        let off14 = if offset < 0 {
            offset + 16384
        } else {
            offset
        };
        assert(0 <= off14 < 16384);
        assert(b1 == (if polarity {
            128int
        } else {
            0int
        }) + off14 / 256);
        assert(off14 / 256 < 64);
        assert(b1 % 64 == off14 / 256);
        assert(b2 == off14 % 256);
        assert((off14 / 256) * 256 + off14 % 256 == off14) by {
            vstd::arithmetic::div_mod::lemma_fundamental_div_mod(off14, 256);
        };
        if offset < 0 {
            assert(off14 >= 8192);
            assert(off14 / 256 >= 32);
        } else {
            assert(off14 < 8192);
            assert(off14 / 256 < 32);
        }
    }
}

/// The 14-bit signed offset of a two-byte branch target.
pub fn fourteen_bit_signed(b1: u8, b2: u8) -> (r: i16)
    ensures
        r == fourteen_bit(b1, b2),
{
    let first6 = b1 % 64;
    let v: u32 = first6 as u32 * 256 + b2 as u32;
    if first6 >= 32 {
        (v as i32 - 16384) as i16
    } else {
        v as i16
    }
}

/// Read the branch target at the PC and branch on `condition` as the
/// format prescribes.
pub fn branch_on_condition(vm: &mut ZMachine, condition: bool) -> (r: ZResult<()>)
    requires
        old(vm).wf(),
    ensures
        final(vm).wf(),
        match branch_step(old(vm)@, condition) {
            Some(s1) => r == ZResult::<()>::Ok(()) && final(vm)@ == s1,
            None => r == ZResult::<()>::Err(Error::Fatal),
        },
{
    let first_label_byte = vm.read_pc_byte()?;
    let offset: i16;
    if (first_label_byte / 64) % 2 == 0 {
        // two-byte, 14-bit signed offset
        let second_label_byte = vm.read_pc_byte()?;
        offset = fourteen_bit_signed(first_label_byte, second_label_byte);
    } else {
        // one-byte, 6-bit unsigned offset
        offset = (first_label_byte % 64) as i16;
    }
    // Branch on false when bit 7 is clear.
    let branch_on = first_label_byte >= 128;
    if condition == branch_on {
        if offset == 0 {
            vm.ret_value(0)?;
        } else if offset == 1 {
            vm.ret_value(1)?;
        } else {
            vm.offset_pc(offset - 2)?;
        }
    }
    Ok(())
}

/// Evaluate two operands as signed values and branch on `cond` applied
/// to them; the comparison result is handed in by each opcode.
pub open spec fn branch_binop_step(s: ZView, op1: Operand, op2: Operand, cond: bool) -> Option<
    ZView,
> {
    if !op_ok(s, op1) || !op_ok(op_step(s, op1), op2) {
        None
    } else {
        branch_step(op_step(op_step(s, op1), op2), cond)
    }
}

/// The full effect of `jz`: evaluate the operand, then branch on it
/// being zero.
pub open spec fn jz_post(s0: ZView, s1: ZView, operand: Operand, r: ZResult<()>) -> bool {
    if op_ok(s0, operand) {
        match branch_step(op_step(s0, operand), op_val(s0, operand) == 0) {
            Some(s2) => r == ZResult::<()>::Ok(()) && s1 == s2,
            None => r == ZResult::<()>::Err(Error::Fatal),
        }
    } else {
        r == ZResult::<()>::Err(Error::Fatal)
    }
}

/// jz: branch when the operand is zero.
pub fn jz_0x00(vm: &mut ZMachine, operand: Operand) -> (r: ZResult<()>)
    requires
        old(vm).wf(),
    ensures
        final(vm).wf(),
        jz_post(old(vm)@, final(vm)@, operand, r),
{
    let value = operand.value(vm)?;
    branch_on_condition(vm, value == 0)
}

/// The full effect of `jl`: branch on the first operand being
/// signed-less than the second.
pub open spec fn jl_post(s0: ZView, s1: ZView, lhs: Operand, rhs: Operand, r: ZResult<()>) -> bool {
    match branch_binop_step(
        s0,
        lhs,
        rhs,
        to_signed(op_val(s0, lhs)) < to_signed(op_val(op_step(s0, lhs), rhs)),
    ) {
        Some(s2) => r == ZResult::<()>::Ok(()) && s1 == s2,
        None => r == ZResult::<()>::Err(Error::Fatal),
    }
}

/// jl: branch when the first operand is signed-less than the second.
pub fn jl_0x02(vm: &mut ZMachine, lhs: Operand, rhs: Operand) -> (r: ZResult<()>)
    requires
        old(vm).wf(),
    ensures
        final(vm).wf(),
        jl_post(old(vm)@, final(vm)@, lhs, rhs, r),
{
    let a = lhs.value(vm)?;
    let b = rhs.value(vm)?;
    let cond = signed_lt(a, b);
    branch_on_condition(vm, cond)
}

/// The full effect of `jg`: branch on the first operand being
/// signed-greater than the second.
pub open spec fn jg_post(s0: ZView, s1: ZView, lhs: Operand, rhs: Operand, r: ZResult<()>) -> bool {
    match branch_binop_step(
        s0,
        lhs,
        rhs,
        to_signed(op_val(s0, lhs)) > to_signed(op_val(op_step(s0, lhs), rhs)),
    ) {
        Some(s2) => r == ZResult::<()>::Ok(()) && s1 == s2,
        None => r == ZResult::<()>::Err(Error::Fatal),
    }
}

/// jg: branch when the first operand is signed-greater than the second.
pub fn jg_0x03(vm: &mut ZMachine, lhs: Operand, rhs: Operand) -> (r: ZResult<()>)
    requires
        old(vm).wf(),
    ensures
        final(vm).wf(),
        jg_post(old(vm)@, final(vm)@, lhs, rhs, r),
{
    let a = lhs.value(vm)?;
    let b = rhs.value(vm)?;
    let cond = signed_lt(b, a);
    branch_on_condition(vm, cond)
}

/// Whether `a` is less than `b` when both are read as signed words.
pub fn signed_lt(a: u16, b: u16) -> (r: bool)
    ensures
        r == (to_signed(a) < to_signed(b)),
{
    let na = a >= 0x8000;
    let nb = b >= 0x8000;
    if na != nb {
        na
    } else {
        a < b
    }
}

/// The full effect of `test`: branch when every bit of the mask is set
/// in the first operand.
pub open spec fn test_post(
    s0: ZView,
    s1: ZView,
    test_op: Operand,
    mask_op: Operand,
    r: ZResult<()>,
) -> bool {
    match branch_binop_step(
        s0,
        test_op,
        mask_op,
        op_val(s0, test_op) & op_val(op_step(s0, test_op), mask_op) == op_val(
            op_step(s0, test_op),
            mask_op,
        ),
    ) {
        Some(s2) => r == ZResult::<()>::Ok(()) && s1 == s2,
        None => r == ZResult::<()>::Err(Error::Fatal),
    }
}

/// test: branch when all bits of the mask are set in the first operand.
pub fn test_0x07(vm: &mut ZMachine, test_op: Operand, mask_op: Operand) -> (r: ZResult<()>)
    requires
        old(vm).wf(),
    ensures
        final(vm).wf(),
        test_post(old(vm)@, final(vm)@, test_op, mask_op, r),
{
    let t = test_op.value(vm)?;
    let m = mask_op.value(vm)?;
    branch_on_condition(vm, t & m == m)
}

/// Scan the further operands of `je`: evaluation stops at the first
/// omitted operand or the first one equal to `value`.
pub open spec fn je_scan(s: ZView, value: u16, rest: Seq<Operand>) -> Option<(bool, ZView)>
    decreases rest.len(),
{
    if rest.len() == 0 {
        Some((false, s))
    } else if rest[0] == Operand::Omitted {
        Some((false, s))
    } else if !op_ok(s, rest[0]) {
        None
    } else if op_val(s, rest[0]) == value {
        Some((true, op_step(s, rest[0])))
    } else {
        je_scan(op_step(s, rest[0]), value, rest.skip(1))
    }
}

/// je: branch when the first operand equals any of up to three further
/// operands; scanning stops at the first omitted operand.
/// The full effect of `je`: evaluate the first operand, scan the rest
/// for an equal value, and branch on a match.
pub open spec fn je_post(s0: ZView, s1: ZView, operands: Seq<Operand>, r: ZResult<()>) -> bool {
    if !op_ok(s0, operands[0]) {
        r == ZResult::<()>::Err(Error::Fatal)
    } else {
        match je_scan(
            op_step(s0, operands[0]),
            op_val(s0, operands[0]),
            seq![operands[1], operands[2], operands[3]],
        ) {
            Some((cond, sa)) => match branch_step(sa, cond) {
                Some(s2) => r == ZResult::<()>::Ok(()) && s1 == s2,
                None => r == ZResult::<()>::Err(Error::Fatal),
            },
            None => r == ZResult::<()>::Err(Error::Fatal),
        }
    }
}

pub fn je_0x01(vm: &mut ZMachine, operands: [Operand; 4]) -> (r: ZResult<()>)
    requires
        old(vm).wf(),
    ensures
        final(vm).wf(),
        je_post(old(vm)@, final(vm)@, operands@, r),
{
    let ghost rest3: Seq<Operand> = seq![operands@[1], operands@[2], operands@[3]];
    proof {
        reveal_with_fuel(je_scan, 5);
        assert(rest3.skip(1) =~= seq![operands@[2], operands@[3]]);
        assert(rest3.skip(1).skip(1) =~= seq![operands@[3]]);
        assert(rest3.skip(1).skip(1).skip(1) =~= Seq::<Operand>::empty());
    }
    let value = operands[0].value(vm)?;
    let mut condition = false;
    let op1 = operands[1];
    if !matches!(op1, Operand::Omitted) {
        let v1 = op1.value(vm)?;
        if value == v1 {
            condition = true;
        } else {
            let op2 = operands[2];
            if !matches!(op2, Operand::Omitted) {
                let v2 = op2.value(vm)?;
                if value == v2 {
                    condition = true;
                } else {
                    let op3 = operands[3];
                    if !matches!(op3, Operand::Omitted) {
                        let v3 = op3.value(vm)?;
                        if value == v3 {
                            condition = true;
                        }
                    }
                }
            }
        }
    }
    branch_on_condition(vm, condition)
}

/// The full effect of `inc_chk` or `dec_chk`: the first operand names a
/// variable, which is rewritten with the wrapped signed value `delta`
/// away from its old value, before the second operand is evaluated and
/// the branch target read.  The branch is taken on the signed comparison
/// of the new value against the second operand, in the direction
/// `new_greater` says.
pub open spec fn chk_post(
    s0: ZView,
    s1: ZView,
    var_op: Operand,
    value_op: Operand,
    delta: int,
    new_greater: bool,
    r: ZResult<()>,
) -> bool {
    if !op_ok(s0, var_op) {
        r == ZResult::<()>::Err(Error::Fatal)
    } else {
        let sa = op_step(s0, var_op);
        let variable = VariableRef::spec_decode((op_val(s0, var_op) % 256) as u8);
        if !read_var_ok(sa, variable) {
            r == ZResult::<()>::Err(Error::Fatal)
        } else {
            let sb = read_var_step(sa, variable);
            let nv = crate::ops::wrap16(to_signed(read_var_val(sa, variable)) + delta);
            if !write_var_ok(sb, variable) {
                r == ZResult::<()>::Err(Error::Fatal)
            } else {
                let sc = write_var_step(sb, variable, nv);
                if !op_ok(sc, value_op) {
                    r == ZResult::<()>::Err(Error::Fatal)
                } else {
                    let sd = op_step(sc, value_op);
                    let limit = op_val(sc, value_op);
                    let cond = if new_greater {
                        to_signed(limit) < to_signed(nv)
                    } else {
                        to_signed(nv) < to_signed(limit)
                    };
                    match branch_step(sd, cond) {
                        Some(se) => r == ZResult::<()>::Ok(()) && s1 == se,
                        None => r == ZResult::<()>::Err(Error::Fatal),
                    }
                }
            }
        }
    }
}

/// inc_chk: increment the named variable as a signed value (written back
/// before the branch bytes are read), then branch when the new value is
/// signed-greater than the second operand.
pub fn inc_chk_0x05(vm: &mut ZMachine, var_op: Operand, value_op: Operand) -> (r: ZResult<()>)
    requires
        old(vm).wf(),
    ensures
        final(vm).wf(),
        chk_post(old(vm)@, final(vm)@, var_op, value_op, 1, true, r),
{
    let encoded = var_op.value(vm)?;
    let variable = VariableRef::decode((encoded % 256) as u8);
    let var_value = vm.read_variable(variable)?;
    let new_value = crate::binop::wrap_add(var_value, 1);
    vm.write_variable(variable, new_value)?;
    let limit = value_op.value(vm)?;
    let cond = signed_lt(limit, new_value);
    branch_on_condition(vm, cond)
}

/// dec_chk: decrement the named variable as a signed value (written back
/// before the branch bytes are read), then branch when the new value is
/// signed-less than the second operand.
pub fn dec_chk_0x04(vm: &mut ZMachine, var_op: Operand, value_op: Operand) -> (r: ZResult<()>)
    requires
        old(vm).wf(),
    ensures
        final(vm).wf(),
        chk_post(old(vm)@, final(vm)@, var_op, value_op, -1, false, r),
{
    let encoded = var_op.value(vm)?;
    let variable = VariableRef::decode((encoded % 256) as u8);
    let var_value = vm.read_variable(variable)?;
    let new_value = crate::binop::wrap_sub(var_value, 1);
    vm.write_variable(variable, new_value)?;
    let limit = value_op.value(vm)?;
    let cond = signed_lt(new_value, limit);
    branch_on_condition(vm, cond)
}

/// jump: add the operand, a signed word, to the PC (less the customary
/// two); this is an unconditional transfer, not a branch target.
/// The full effect of `jump`: the PC moves by the operand's signed value
/// less two; a target outside the address space is fatal.
pub open spec fn jump_post(s0: ZView, s1: ZView, operand: Operand, r: ZResult<()>) -> bool {
    if !op_ok(s0, operand) {
        r == ZResult::<()>::Err(Error::Fatal)
    } else {
        let sa = op_step(s0, operand);
        let target = sa.pc + to_signed(op_val(s0, operand)) - 2;
        if 0 <= target <= usize::MAX {
            r == ZResult::<()>::Ok(()) && s1 == (ZView { pc: target, ..sa })
        } else {
            r == ZResult::<()>::Err(Error::Fatal)
        }
    }
}

pub fn jump_0x0c(vm: &mut ZMachine, operand: Operand) -> (r: ZResult<()>)
    requires
        old(vm).wf(),
    ensures
        final(vm).wf(),
        jump_post(old(vm)@, final(vm)@, operand, r),
{
    let value = operand.value(vm)?;
    let here = vm.current_pc();
    let sv = to_signed_exec(value);
    if sv >= 2 {
        let add = (sv - 2) as usize;
        if here <= usize::MAX - add {
            vm.set_current_pc(here + add)?;
            Ok(())
        } else {
            Err(Error::Fatal)
        }
    } else {
        let sub = (2 - sv) as usize;
        if here >= sub {
            vm.set_current_pc(here - sub)?;
            Ok(())
        } else {
            Err(Error::Fatal)
        }
    }
}

/// The signed reading of a word, as a machine integer.
pub fn to_signed_exec(v: u16) -> (r: i32)
    ensures
        r == to_signed(v),
{
    if v >= 0x8000 {
        v as i32 - 0x10000
    } else {
        v as i32
    }
}

/// jin: branch when the first object's parent is the second operand.
/// The full effect of `jin`: branch when the first object's parent is
/// the second operand.
pub open spec fn jin_post(s0: ZView, s1: ZView, lhs: Operand, rhs: Operand, r: ZResult<()>) -> bool {
    if crate::ops::eval2_ok(s0, lhs, rhs) {
        let s2 = crate::ops::eval2_step(s0, lhs, rhs);
        let o = crate::ops::eval2_va(s0, lhs);
        if ZMachine::view_objs(s2).contains_key(o) {
            match branch_step(
                s2,
                ZMachine::view_objs(s2)[o].parent == crate::ops::eval2_vb(s0, lhs, rhs),
            ) {
                Some(s3) => r == ZResult::<()>::Ok(()) && s1 == s3,
                None => r == ZResult::<()>::Err(Error::Fatal),
            }
        } else {
            r == ZResult::<()>::Err(Error::Fatal)
        }
    } else {
        r == ZResult::<()>::Err(Error::Fatal)
    }
}

pub fn jin_0x06(vm: &mut ZMachine, lhs: Operand, rhs: Operand) -> (r: ZResult<()>)
    requires
        old(vm).wf(),
    ensures
        final(vm).wf(),
        jin_post(old(vm)@, final(vm)@, lhs, rhs, r),
{
    let child_number = lhs.value(vm)?;
    let parent_number = rhs.value(vm)?;
    let childs_parent = vm.obj_parent(child_number)?;
    branch_on_condition(vm, parent_number == childs_parent)
}

/// get_child: store the object's first child, and branch when it is not
/// zero.
/// The full effect of `get_child`: store the object's first child and
/// branch when it is not zero.
pub open spec fn get_child_post(
    s0: ZView,
    s1: ZView,
    object_number: Operand,
    variable: VariableRef,
    r: ZResult<()>,
) -> bool {
    if op_ok(s0, object_number) {
        let sa = op_step(s0, object_number);
        let o = op_val(s0, object_number);
        if ZMachine::view_objs(sa).contains_key(o) {
            let child = ZMachine::view_objs(sa)[o].child;
            if write_var_ok(sa, variable) {
                match branch_step(write_var_step(sa, variable, child), child != 0) {
                    Some(s3) => r == ZResult::<()>::Ok(()) && s1 == s3,
                    None => r == ZResult::<()>::Err(Error::Fatal),
                }
            } else {
                r == ZResult::<()>::Err(Error::Fatal)
            }
        } else {
            r == ZResult::<()>::Err(Error::Fatal)
        }
    } else {
        r == ZResult::<()>::Err(Error::Fatal)
    }
}

pub fn get_child_0x02(vm: &mut ZMachine, object_number: Operand, variable: VariableRef) -> (r:
    ZResult<()>)
    requires
        old(vm).wf(),
    ensures
        final(vm).wf(),
        get_child_post(old(vm)@, final(vm)@, object_number, variable, r),
{
    let o = object_number.value(vm)?;
    let child_number = vm.obj_child(o)?;
    vm.write_variable(variable, child_number)?;
    branch_on_condition(vm, child_number != 0)
}

/// get_sibling: store the object's sibling, and branch when it is not
/// zero.
/// The full effect of `get_sibling`: store the object's sibling and
/// branch when it is not zero.
pub open spec fn get_sibling_post(
    s0: ZView,
    s1: ZView,
    object_number: Operand,
    variable: VariableRef,
    r: ZResult<()>,
) -> bool {
    if op_ok(s0, object_number) {
        let sa = op_step(s0, object_number);
        let o = op_val(s0, object_number);
        if ZMachine::view_objs(sa).contains_key(o) {
            let sib = ZMachine::view_objs(sa)[o].sibling;
            if write_var_ok(sa, variable) {
                match branch_step(write_var_step(sa, variable, sib), sib != 0) {
                    Some(s3) => r == ZResult::<()>::Ok(()) && s1 == s3,
                    None => r == ZResult::<()>::Err(Error::Fatal),
                }
            } else {
                r == ZResult::<()>::Err(Error::Fatal)
            }
        } else {
            r == ZResult::<()>::Err(Error::Fatal)
        }
    } else {
        r == ZResult::<()>::Err(Error::Fatal)
    }
}

pub fn get_sibling_0x01(vm: &mut ZMachine, object_number: Operand, variable: VariableRef) -> (r:
    ZResult<()>)
    requires
        old(vm).wf(),
    ensures
        final(vm).wf(),
        get_sibling_post(old(vm)@, final(vm)@, object_number, variable, r),
{
    let o = object_number.value(vm)?;
    let sibling_number = vm.obj_sibling(o)?;
    vm.write_variable(variable, sibling_number)?;
    branch_on_condition(vm, sibling_number != 0)
}

} // verus!
