//! Arithmetic and bitwise two-operand opcodes.  The machine works with
//! unsigned words; arithmetic reads them as signed 16-bit values, computes
//! widely, and truncates back to 16 bits.

use vstd::prelude::*;

use crate::ops::{eval2_ok, eval2_step, eval2_va, eval2_vb, to_signed, wrap16, Operand};
use crate::result::{Error, ZResult};
use crate::variable::VariableRef;
use crate::zmachine::{write_var_ok, write_var_step, ZMachine, ZView};

verus! {

/// Signed truncating division (toward zero), as the `div` opcode demands.
pub open spec fn sdiv(a: int, b: int) -> int {
    let q = abs(a) / abs(b);
    if (a < 0) != (b < 0) {
        -q
    } else {
        q
    }
}

/// The remainder matching `sdiv`: it takes the dividend's sign.
pub open spec fn smod(a: int, b: int) -> int {
    a - b * sdiv(a, b)
}

pub open spec fn abs(a: int) -> int {
    if a < 0 {
        -a
    } else {
        a
    }
}

/// The sum of two words, read as signed values, truncated to 16 bits.
pub fn wrap_add(a: u16, b: u16) -> (r: u16)
    ensures
        r == wrap16(to_signed(a) + to_signed(b)),
{
    let wide: u32 = a as u32 + b as u32;
    let r = (wide % 0x10000) as u16;
    proof {
        vstd::arithmetic::div_mod::lemma_mod_multiples_vanish(-1, a + b, 0x10000);
        vstd::arithmetic::div_mod::lemma_mod_multiples_vanish(-2, a + b, 0x10000);
    }
    r
}

/// The difference of two words, read as signed values, truncated.
pub fn wrap_sub(a: u16, b: u16) -> (r: u16)
    ensures
        r == wrap16(to_signed(a) - to_signed(b)),
{
    let wide: u32 = 0x10000 + a as u32 - b as u32;
    let r = (wide % 0x10000) as u16;
    proof {
        vstd::arithmetic::div_mod::lemma_mod_multiples_vanish(1, a - b, 0x10000);
        vstd::arithmetic::div_mod::lemma_mod_multiples_vanish(-1, a - b, 0x10000);
        vstd::arithmetic::div_mod::lemma_mod_multiples_vanish(2, a - b, 0x10000);
    }
    r
}

/// The product of two words, read as signed values, truncated.
pub fn wrap_mul(a: u16, b: u16) -> (r: u16)
    ensures
        r == wrap16(to_signed(a) * to_signed(b)),
{
    proof {
        vstd::arithmetic::mul::lemma_mul_upper_bound(a as int, 0xffff, b as int, 0xffff);
        vstd::arithmetic::mul::lemma_mul_nonnegative(a as int, b as int);
    }
    let wide: u64 = a as u64 * b as u64;
    let r = (wide % 0x10000) as u16;
    proof {
        let sa = to_signed(a);
        let sb = to_signed(b);
        let k = if a >= 0x8000 && b >= 0x8000 {
            (a as int) + (b as int) - 0x10000
        } else if a >= 0x8000 {
            b as int
        } else if b >= 0x8000 {
            a as int
        } else {
            0
        };
        assert((a as int) * (b as int) == sa * sb + 0x10000 * k) by (nonlinear_arith)
            requires
                sa == (if a >= 0x8000 {
                    (a as int) - 0x10000
                } else {
                    a as int
                }),
                sb == (if b >= 0x8000 {
                    (b as int) - 0x10000
                } else {
                    b as int
                }),
                k == (if a >= 0x8000 && b >= 0x8000 {
                    (a as int) + (b as int) - 0x10000
                } else if a >= 0x8000 {
                    b as int
                } else if b >= 0x8000 {
                    a as int
                } else {
                    0
                }),
        ;
        vstd::arithmetic::div_mod::lemma_mod_multiples_vanish(k, sa * sb, 0x10000);
    }
    r
}

/// Signed truncating division of two words; the divisor must not be 0.
pub fn wrap_div(a: u16, b: u16) -> (r: u16)
    requires
        to_signed(b) != 0,
    ensures
        r == wrap16(sdiv(to_signed(a), to_signed(b))),
{
    let na = a >= 0x8000;
    let nb = b >= 0x8000;
    let abs_a: u32 = if na {
        0x10000 - a as u32
    } else {
        a as u32
    };
    let abs_b: u32 = if nb {
        0x10000 - b as u32
    } else {
        b as u32
    };
    let q: u32 = abs_a / abs_b;
    let r: u16 = if na != nb {
        (((0x10000 - q % 0x10000) as u32) % 0x10000) as u16
    } else {
        (q % 0x10000) as u16
    };
    proof {
        let sq = sdiv(to_signed(a), to_signed(b));
        assert(abs_a == abs(to_signed(a)));
        assert(abs_b == abs(to_signed(b)));
        if na != nb {
            assert(sq == -(abs_a as int / abs_b as int));
            vstd::arithmetic::div_mod::lemma_mod_multiples_vanish(1, sq, 0x10000);
            vstd::arithmetic::div_mod::lemma_mod_multiples_vanish(2, sq, 0x10000);
        }
    }
    r
}

/// The remainder of signed truncating division; takes the dividend's sign.
pub fn wrap_mod(a: u16, b: u16) -> (r: u16)
    requires
        to_signed(b) != 0,
    ensures
        r == wrap16(smod(to_signed(a), to_signed(b))),
{
    let na = a >= 0x8000;
    let nb = b >= 0x8000;
    let abs_a: u32 = if na {
        0x10000 - a as u32
    } else {
        a as u32
    };
    let abs_b: u32 = if nb {
        0x10000 - b as u32
    } else {
        b as u32
    };
    let m: u32 = abs_a % abs_b;
    let r: u16 = if na {
        (((0x10000 - m) as u32) % 0x10000) as u16
    } else {
        m as u16
    };
    proof {
        let sa = to_signed(a);
        let sb = to_signed(b);
        let sm = smod(sa, sb);
        assert(abs_a == abs(sa));
        assert(abs_b == abs(sb));
        assert(abs_a as int == abs_b * (abs_a as int / abs_b as int) + abs_a as int % abs_b as int)
            by {
            vstd::arithmetic::div_mod::lemma_fundamental_div_mod(abs_a as int, abs_b as int);
        };
        assert(sm == if sa < 0 {
            -(m as int)
        } else {
            m as int
        }) by (nonlinear_arith)
            requires
                sm == sa - sb * sdiv(sa, sb),
                sdiv(sa, sb) == (if (sa < 0) != (sb < 0) {
                    -(abs(sa) / abs(sb))
                } else {
                    abs(sa) / abs(sb)
                }),
                m == abs(sa) % abs(sb),
                abs(sa) == abs_b * (abs(sa) / abs(sb)) + abs(sa) % abs(sb),
                abs_b == abs(sb),
                abs(sa) == if sa < 0 {
                    -sa
                } else {
                    sa
                },
                abs(sb) == if sb < 0 {
                    -sb
                } else {
                    sb
                },
        ;
        if na {
            assert(m < abs_b) by {
                vstd::arithmetic::div_mod::lemma_mod_bound(abs_a as int, abs_b as int);
            };
            vstd::arithmetic::div_mod::lemma_mod_multiples_vanish(1, sm, 0x10000);
            vstd::arithmetic::div_mod::lemma_mod_multiples_vanish(2, sm, 0x10000);
        }
    }
    r
}

/// The shape every result-storing two-operand opcode shares: evaluate
/// both operands, then store `v` — a function of the two values — into
/// the result variable.
pub open spec fn binop_post(
    s0: ZView,
    s1: ZView,
    lhs: Operand,
    rhs: Operand,
    result_ref: VariableRef,
    v: u16,
    r: ZResult<()>,
) -> bool {
    if eval2_ok(s0, lhs, rhs) {
        let s2 = eval2_step(s0, lhs, rhs);
        if write_var_ok(s2, result_ref) {
            r == ZResult::<()>::Ok(()) && s1 == write_var_step(s2, result_ref, v)
        } else {
            r == ZResult::<()>::Err(Error::Fatal)
        }
    } else {
        r == ZResult::<()>::Err(Error::Fatal)
    }
}

/// add: store the signed sum, truncated to 16 bits.
pub fn add_0x14(vm: &mut ZMachine, lhs: Operand, rhs: Operand, result_ref: VariableRef) -> (r:
    ZResult<()>)
    requires
        old(vm).wf(),
    ensures
        final(vm).wf(),
        binop_post(
            old(vm)@,
            final(vm)@,
            lhs,
            rhs,
            result_ref,
            wrap16(to_signed(eval2_va(old(vm)@, lhs)) + to_signed(eval2_vb(old(vm)@, lhs, rhs))),
            r,
        ),
{
    let a = lhs.value(vm)?;
    let b = rhs.value(vm)?;
    let v = wrap_add(a, b);
    vm.write_variable(result_ref, v)
}

/// sub: store the signed difference, truncated to 16 bits.
pub fn sub_0x15(vm: &mut ZMachine, lhs: Operand, rhs: Operand, result_ref: VariableRef) -> (r:
    ZResult<()>)
    requires
        old(vm).wf(),
    ensures
        final(vm).wf(),
        binop_post(
            old(vm)@,
            final(vm)@,
            lhs,
            rhs,
            result_ref,
            wrap16(to_signed(eval2_va(old(vm)@, lhs)) - to_signed(eval2_vb(old(vm)@, lhs, rhs))),
            r,
        ),
{
    let a = lhs.value(vm)?;
    let b = rhs.value(vm)?;
    let v = wrap_sub(a, b);
    vm.write_variable(result_ref, v)
}

/// mul: store the signed product, truncated to 16 bits.
pub fn mul_0x16(vm: &mut ZMachine, lhs: Operand, rhs: Operand, result_ref: VariableRef) -> (r:
    ZResult<()>)
    requires
        old(vm).wf(),
    ensures
        final(vm).wf(),
        binop_post(
            old(vm)@,
            final(vm)@,
            lhs,
            rhs,
            result_ref,
            wrap16(to_signed(eval2_va(old(vm)@, lhs)) * to_signed(eval2_vb(old(vm)@, lhs, rhs))),
            r,
        ),
{
    let a = lhs.value(vm)?;
    let b = rhs.value(vm)?;
    let v = wrap_mul(a, b);
    vm.write_variable(result_ref, v)
}

/// The full effect of `div`: the signed truncating quotient is stored;
/// a zero divisor is fatal.
pub open spec fn div_post(
    s0: ZView,
    s1: ZView,
    lhs: Operand,
    rhs: Operand,
    result_ref: VariableRef,
    r: ZResult<()>,
) -> bool {
    if eval2_ok(s0, lhs, rhs) && to_signed(eval2_vb(s0, lhs, rhs)) != 0 {
        binop_post(
            s0,
            s1,
            lhs,
            rhs,
            result_ref,
            wrap16(sdiv(to_signed(eval2_va(s0, lhs)), to_signed(eval2_vb(s0, lhs, rhs)))),
            r,
        )
    } else {
        r == ZResult::<()>::Err(Error::Fatal)
    }
}

/// div: store the signed quotient, truncating toward zero.  Division by
/// zero is fatal.
pub fn div_0x17(vm: &mut ZMachine, lhs: Operand, rhs: Operand, result_ref: VariableRef) -> (r:
    ZResult<()>)
    requires
        old(vm).wf(),
    ensures
        final(vm).wf(),
        div_post(old(vm)@, final(vm)@, lhs, rhs, result_ref, r),
{
    let a = lhs.value(vm)?;
    let b = rhs.value(vm)?;
    if b == 0 {
        return Err(Error::Fatal);
    }
    let v = wrap_div(a, b);
    vm.write_variable(result_ref, v)
}

/// The full effect of `mod`: the remainder of the signed truncating
/// division is stored; a zero divisor is fatal.
pub open spec fn mod_post(
    s0: ZView,
    s1: ZView,
    lhs: Operand,
    rhs: Operand,
    result_ref: VariableRef,
    r: ZResult<()>,
) -> bool {
    if eval2_ok(s0, lhs, rhs) && to_signed(eval2_vb(s0, lhs, rhs)) != 0 {
        binop_post(
            s0,
            s1,
            lhs,
            rhs,
            result_ref,
            wrap16(smod(to_signed(eval2_va(s0, lhs)), to_signed(eval2_vb(s0, lhs, rhs)))),
            r,
        )
    } else {
        r == ZResult::<()>::Err(Error::Fatal)
    }
}

/// mod: store the remainder of the signed truncating division.  Division
/// by zero is fatal.
pub fn mod_0x18(vm: &mut ZMachine, lhs: Operand, rhs: Operand, result_ref: VariableRef) -> (r:
    ZResult<()>)
    requires
        old(vm).wf(),
    ensures
        final(vm).wf(),
        mod_post(old(vm)@, final(vm)@, lhs, rhs, result_ref, r),
{
    let a = lhs.value(vm)?;
    let b = rhs.value(vm)?;
    if b == 0 {
        return Err(Error::Fatal);
    }
    let v = wrap_mod(a, b);
    vm.write_variable(result_ref, v)
}

/// and: store the bitwise conjunction.
pub fn and_0x09(vm: &mut ZMachine, lhs: Operand, rhs: Operand, result_ref: VariableRef) -> (r:
    ZResult<()>)
    requires
        old(vm).wf(),
    ensures
        final(vm).wf(),
        binop_post(
            old(vm)@,
            final(vm)@,
            lhs,
            rhs,
            result_ref,
            eval2_va(old(vm)@, lhs) & eval2_vb(old(vm)@, lhs, rhs),
            r,
        ),
{
    let a = lhs.value(vm)?;
    let b = rhs.value(vm)?;
    vm.write_variable(result_ref, a & b)
}

/// or: store the bitwise disjunction.
pub fn or_0x08(vm: &mut ZMachine, lhs: Operand, rhs: Operand, result_ref: VariableRef) -> (r:
    ZResult<()>)
    requires
        old(vm).wf(),
    ensures
        final(vm).wf(),
        binop_post(
            old(vm)@,
            final(vm)@,
            lhs,
            rhs,
            result_ref,
            eval2_va(old(vm)@, lhs) | eval2_vb(old(vm)@, lhs, rhs),
            r,
        ),
{
    let a = lhs.value(vm)?;
    let b = rhs.value(vm)?;
    vm.write_variable(result_ref, a | b)
}

} // verus!
