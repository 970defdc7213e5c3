//! The call stack: a contiguous byte buffer holding frames, each with its
//! locals and evaluation stack.
//!
//! Frame layout, in order from the frame base:
//! offset 0: previous frame offset (2 bytes, big-endian); offset 2: return
//! PC (4 bytes); offset 6: locals count; offset 7: encoded result target;
//! then the locals (2 bytes each), then the evaluation stack growing upward
//! until the next frame is pushed.

use vstd::prelude::*;

use crate::memory::word_at;
use crate::result::{Error, ZResult};
use crate::variable::VariableRef;

verus! {

pub const PC_OFFSET: usize = 0x02;
pub const NUM_LOCALS_OFFSET: usize = 0x06;
pub const RESULT_LOCATION_OFFSET: usize = 0x07;
pub const FIRST_LOCAL_OFFSET: usize = 0x08;

/// The abstract state of the stack: the raw bytes and the three registers.
pub struct StackModel {
    pub bytes: Seq<u8>,
    /// Index of the next free byte.
    pub sp: int,
    /// Base of the current frame.
    pub fp: int,
    /// Bottom of the current frame's evaluation stack.
    pub base_sp: int,
}

impl StackModel {
    /// The number of locals recorded in the current frame's header.
    pub open spec fn num_locals(self) -> int {
        self.bytes[self.fp + NUM_LOCALS_OFFSET] as int
    }

    /// The current frame's evaluation stack, oldest first, as big-endian
    /// words between `base_sp` and `sp`.
    pub open spec fn eval_stack(self) -> Seq<int> {
        Seq::new(((self.sp - self.base_sp) / 2) as nat, |i: int| word_at(self.bytes, self.base_sp + 2 * i))
    }

    /// The value of local `i` of the current frame.
    pub open spec fn local(self, i: int) -> int {
        word_at(self.bytes, self.fp + FIRST_LOCAL_OFFSET + 2 * i)
    }

    /// Well-formedness of the registers against the byte buffer: the
    /// current frame's header lies below its evaluation stack, the base of
    /// the evaluation stack sits just above the locals, and word counts
    /// stay aligned.
    pub open spec fn wf(self) -> bool {
        &&& 0 <= self.fp
        &&& self.fp + FIRST_LOCAL_OFFSET <= self.base_sp
        &&& self.base_sp <= self.sp <= self.bytes.len()
        &&& self.bytes.len() <= 0xffff
        &&& self.base_sp == self.fp + FIRST_LOCAL_OFFSET + 2 * self.num_locals()
        &&& (self.sp - self.base_sp) % 2 == 0
    }
}

/// The relation `new_frame` establishes between the pre- and post-state.
pub open spec fn new_frame_rel(
    pre: StackModel,
    post: StackModel,
    pc: int,
    num_locals: int,
    result_location: VariableRef,
) -> bool {
    let f = pre.sp;
    &&& post.fp == f
    &&& post.base_sp == f + FIRST_LOCAL_OFFSET + 2 * num_locals
    &&& post.sp == post.base_sp
    &&& post.bytes.len() == pre.bytes.len()
    &&& forall|i: int| 0 <= i < f ==> post.bytes[i] == pre.bytes[i]
    &&& word_at(post.bytes, f) == pre.fp
    &&& post.bytes[f + PC_OFFSET] * 0x1000000 + post.bytes[f + PC_OFFSET + 1] * 0x10000
        + post.bytes[f + PC_OFFSET + 2] * 0x100 + post.bytes[f + PC_OFFSET + 3] == pc
    &&& post.bytes[f + NUM_LOCALS_OFFSET] == num_locals
    &&& post.bytes[f + RESULT_LOCATION_OFFSET] == VariableRef::spec_encode(result_location)
    &&& forall|i: int| 0 <= i < num_locals ==> post.local(i) == 0
}

/// The relation `pop_frame` establishes: the registers are restored from
/// the popped frame's header, the bytes are untouched, and the returned
/// values are the ones the header carried.
pub open spec fn pop_frame_rel(
    pre: StackModel,
    post: StackModel,
    ret_pc: int,
    result_location: VariableRef,
) -> bool {
    &&& post.bytes == pre.bytes
    &&& post.sp == pre.fp
    &&& post.fp == word_at(pre.bytes, pre.fp)
    &&& post.base_sp == post.fp + FIRST_LOCAL_OFFSET + 2 * (pre.bytes[post.fp
        + NUM_LOCALS_OFFSET] as int)
    &&& ret_pc == pre.bytes[pre.fp + PC_OFFSET] * 0x1000000 + pre.bytes[pre.fp + PC_OFFSET
        + 1] * 0x10000 + pre.bytes[pre.fp + PC_OFFSET + 2] * 0x100 + pre.bytes[pre.fp + PC_OFFSET
        + 3]
    &&& result_location == VariableRef::spec_decode(pre.bytes[pre.fp + RESULT_LOCATION_OFFSET])
}

/// Whether the current frame can be popped: the recorded previous frame
/// must fit, with its locals, below the current frame, leaving an aligned
/// evaluation stack.
pub open spec fn pop_frame_ok(m: StackModel) -> bool {
    let pfp = word_at(m.bytes, m.fp);
    let nl = m.bytes[pfp + NUM_LOCALS_OFFSET] as int;
    &&& pfp + FIRST_LOCAL_OFFSET <= m.fp
    &&& pfp + FIRST_LOCAL_OFFSET + 2 * nl <= m.fp
    &&& (m.fp - (pfp + FIRST_LOCAL_OFFSET + 2 * nl)) % 2 == 0
}

/// The stack after a successful pop of the current frame.
pub open spec fn popped_stack(m: StackModel) -> StackModel {
    let pfp = word_at(m.bytes, m.fp);
    let nl = m.bytes[pfp + NUM_LOCALS_OFFSET] as int;
    StackModel { bytes: m.bytes, sp: m.fp, fp: pfp, base_sp: pfp + FIRST_LOCAL_OFFSET + 2 * nl }
}

/// The return PC the current frame's header carries.
pub open spec fn popped_pc(m: StackModel) -> int {
    m.bytes[m.fp + PC_OFFSET] * 0x1000000 + m.bytes[m.fp + PC_OFFSET + 1] * 0x10000 + m.bytes[m.fp
        + PC_OFFSET + 2] * 0x100 + m.bytes[m.fp + PC_OFFSET + 3]
}

/// The result target the current frame's header carries.
pub open spec fn popped_var(m: StackModel) -> VariableRef {
    VariableRef::spec_decode(m.bytes[m.fp + RESULT_LOCATION_OFFSET])
}

pub struct Stack {
    stack: Vec<u8>,
    /// Index of the next empty location in the stack.
    sp: usize,
    /// Index of the base of the current frame.
    fp: usize,
    /// Index of the bottom of the current frame's evaluation stack.
    base_sp: usize,
}

impl View for Stack {
    type V = StackModel;

    closed spec fn view(&self) -> StackModel {
        StackModel { bytes: self.stack@, sp: self.sp as int, fp: self.fp as int, base_sp: self.base_sp as int }
    }
}

impl Stack {
    /// A fresh stack of `size` bytes holding a single empty bottom frame
    /// with no locals and no meaningful return.
    pub fn new(size: usize) -> (r: Stack)
        requires
            FIRST_LOCAL_OFFSET <= size < 0x10000,
        ensures
            r@.wf(),
            r@.bytes.len() == size,
            r@.fp == 0,
            r@.base_sp == FIRST_LOCAL_OFFSET,
            r@.sp == FIRST_LOCAL_OFFSET,
            r@.eval_stack() == Seq::<int>::empty(),
            forall|i: int| 0 <= i < size ==> r@.bytes[i] == 0,
    {
        let mut stack_bytes: Vec<u8> = Vec::new();
        let mut i: usize = 0;
        while i < size
            invariant
                i <= size,
                stack_bytes@.len() == i,
                forall|j: int| 0 <= j < i ==> stack_bytes@[j] == 0,
            decreases size - i,
        {
            stack_bytes.push(0);
            i = i + 1;
        }
        let r = Stack { stack: stack_bytes, sp: FIRST_LOCAL_OFFSET, fp: 0, base_sp: FIRST_LOCAL_OFFSET };
        assert(r@.eval_stack() =~= Seq::<int>::empty());
        r
    }

    /// The stack's size in bytes.
    pub fn size(&self) -> (r: usize)
        ensures
            r == self@.bytes.len(),
    {
        self.stack.len()
    }

    /// The byte at offset `i`; exposes the frame layout for inspection.
    pub fn byte_at(&self, i: usize) -> (r: u8)
        requires
            i < self@.bytes.len(),
        ensures
            r == self@.bytes[i as int],
    {
        self.stack[i]
    }

    /// The current stack pointer.
    pub fn sp(&self) -> (r: usize)
        ensures
            r == self@.sp,
    {
        self.sp
    }

    /// The base of the current frame.
    pub fn fp(&self) -> (r: usize)
        ensures
            r == self@.fp,
    {
        self.fp
    }

    /// The bottom of the current frame's evaluation stack.
    pub fn base_sp(&self) -> (r: usize)
        ensures
            r == self@.base_sp,
    {
        self.base_sp
    }

    /// Push a single byte.
    pub fn push_u8(&mut self, val: u8)
        requires
            old(self)@.sp + 1 <= old(self)@.bytes.len(),
        ensures
            final(self)@.bytes == old(self)@.bytes.update(old(self)@.sp, val),
            final(self)@.sp == old(self)@.sp + 1,
            final(self)@.fp == old(self)@.fp,
            final(self)@.base_sp == old(self)@.base_sp,
    {
        let n = self.stack.len();
        self.stack.set(self.sp, val);
        self.sp = self.sp + 1;
    }

    /// Push a big-endian word onto the current evaluation stack.
    pub fn push_u16(&mut self, val: u16)
        requires
            old(self)@.sp + 2 <= old(self)@.bytes.len(),
        ensures
            final(self)@.bytes == old(self)@.bytes.update(old(self)@.sp, (val / 256) as u8).update(
                old(self)@.sp + 1,
                (val % 256) as u8,
            ),
            final(self)@.sp == old(self)@.sp + 2,
            final(self)@.fp == old(self)@.fp,
            final(self)@.base_sp == old(self)@.base_sp,
            old(self)@.wf() ==> final(self)@.wf(),
            old(self)@.wf() ==> final(self)@.eval_stack() == old(self)@.eval_stack().push(
                val as int,
            ),
    {
        let n = self.stack.len();
        self.stack.set(self.sp, (val / 256) as u8);
        self.stack.set(self.sp + 1, (val % 256) as u8);
        self.sp = self.sp + 2;
        proof {
            if old(self)@.wf() {
                assert(self@.eval_stack() =~= old(self)@.eval_stack().push(val as int));
            }
        }
    }

    /// Push a 4-byte big-endian value.
    fn push_u32(&mut self, val: u32)
        requires
            old(self)@.sp + 4 <= old(self)@.bytes.len(),
        ensures
            final(self)@.bytes.len() == old(self)@.bytes.len(),
            forall|i: int|
                0 <= i < old(self)@.bytes.len() && !(old(self)@.sp <= i < old(self)@.sp + 4)
                    ==> final(self)@.bytes[i] == old(self)@.bytes[i],
            final(self)@.bytes[old(self)@.sp] * 0x1000000 + final(self)@.bytes[old(self)@.sp + 1]
                * 0x10000 + final(self)@.bytes[old(self)@.sp + 2] * 0x100
                + final(self)@.bytes[old(self)@.sp + 3] == val,
            final(self)@.sp == old(self)@.sp + 4,
            final(self)@.fp == old(self)@.fp,
            final(self)@.base_sp == old(self)@.base_sp,
    {
        let n = self.stack.len();
        self.stack.set(self.sp, (val / 0x1000000) as u8);
        self.stack.set(self.sp + 1, ((val / 0x10000) % 0x100) as u8);
        self.stack.set(self.sp + 2, ((val / 0x100) % 0x100) as u8);
        self.stack.set(self.sp + 3, (val % 0x100) as u8);
        self.sp = self.sp + 4;
    }

    /// Pop a word from the current evaluation stack.  Popping from an
    /// empty evaluation stack is a fatal error.
    pub fn pop_u16(&mut self) -> (r: ZResult<u16>)
        requires
            old(self)@.wf(),
        ensures
            final(self)@.wf(),
            final(self)@.bytes == old(self)@.bytes,
            final(self)@.fp == old(self)@.fp,
            final(self)@.base_sp == old(self)@.base_sp,
            old(self)@.eval_stack().len() == 0 ==> r == ZResult::<u16>::Err(Error::Fatal)
                && final(self)@.sp == old(self)@.sp,
            old(self)@.eval_stack().len() > 0 ==> {
                &&& final(self)@.sp == old(self)@.sp - 2
                &&& r == ZResult::<u16>::Ok(old(self)@.eval_stack().last() as u16)
                &&& final(self)@.eval_stack() == old(self)@.eval_stack().drop_last()
            },
    {
        if self.sp < self.base_sp + 2 {
            assert(old(self)@.eval_stack().len() == 0);
            return Err(Error::Fatal);
        }
        self.sp = self.sp - 2;
        let hi = self.stack[self.sp];
        let lo = self.stack[self.sp + 1];
        let r = hi as u16 * 256 + lo as u16;
        proof {
            let pre = old(self)@;
            let n = pre.eval_stack().len();
            assert(n > 0);
            assert(pre.eval_stack()[n - 1] == word_at(pre.bytes, pre.base_sp + 2 * (n - 1)));
            assert(pre.base_sp + 2 * (n - 1) == pre.sp - 2);
            assert(self@.eval_stack() =~= pre.eval_stack().drop_last());
        }
        Ok(r)
    }

    /// Read the top of the current evaluation stack without popping it.
    pub fn peek_u16(&self) -> (r: ZResult<u16>)
        requires
            self@.wf(),
        ensures
            self@.eval_stack().len() == 0 ==> r == ZResult::<u16>::Err(Error::Fatal),
            self@.eval_stack().len() > 0 ==> r == ZResult::<u16>::Ok(
                self@.eval_stack().last() as u16,
            ),
    {
        if self.sp < self.base_sp + 2 {
            assert(self@.eval_stack().len() == 0);
            return Err(Error::Fatal);
        }
        let hi = self.stack[self.sp - 2];
        let lo = self.stack[self.sp - 1];
        proof {
            let n = self@.eval_stack().len();
            assert(n > 0);
            assert(self@.eval_stack()[n - 1] == word_at(self@.bytes, self@.base_sp + 2 * (n - 1)));
            assert(self@.base_sp + 2 * (n - 1) == self@.sp - 2);
        }
        Ok(hi as u16 * 256 + lo as u16)
    }

    /// Allocate a new frame on the call stack, zeroing its locals and
    /// moving the evaluation-stack base above them.
    pub fn new_frame(&mut self, pc: usize, num_locals: u8, result_location: VariableRef) -> (r:
        ZResult<()>)
        requires
            old(self)@.wf(),
            num_locals <= 15,
            VariableRef::encodable(result_location),
            pc <= 0xffffffff,
        ensures
            final(self)@.wf(),
            old(self)@.sp + FIRST_LOCAL_OFFSET + 2 * num_locals <= old(self)@.bytes.len() ==> {
                &&& r == ZResult::<()>::Ok(())
                &&& new_frame_rel(old(self)@, final(self)@, pc as int, num_locals as int, result_location)
                &&& final(self)@.eval_stack() == Seq::<int>::empty()
            },
            old(self)@.sp + FIRST_LOCAL_OFFSET + 2 * num_locals > old(self)@.bytes.len() ==> {
                &&& r == ZResult::<()>::Err(Error::Fatal)
                &&& final(self)@ == old(self)@
            },
    {
        let len = self.stack.len();
        if len - self.sp < FIRST_LOCAL_OFFSET + 2 * num_locals as usize {
            return Err(Error::Fatal);
        }
        let new_fp = self.sp;
        let old_fp = self.fp;
        let ghost pre = old(self)@;
        self.push_u16(old_fp as u16);
        self.push_u32(pc as u32);
        self.push_u8(num_locals);
        self.push_u8(VariableRef::encode(result_location));
        let mut i: u8 = 0;
        while i < num_locals
            invariant
                i <= num_locals,
                self@.sp == new_fp + FIRST_LOCAL_OFFSET + 2 * i,
                self@.bytes.len() == pre.bytes.len(),
                new_fp + FIRST_LOCAL_OFFSET + 2 * num_locals <= self@.bytes.len(),
                new_fp == pre.sp,
                pre.fp <= 0xffff,
                self@.fp == pre.fp,
                self@.base_sp == pre.base_sp,
                forall|j: int| 0 <= j < new_fp ==> self@.bytes[j] == pre.bytes[j],
                word_at(self@.bytes, new_fp as int) == pre.fp,
                self@.bytes[new_fp + PC_OFFSET] * 0x1000000 + self@.bytes[new_fp + PC_OFFSET + 1]
                    * 0x10000 + self@.bytes[new_fp + PC_OFFSET + 2] * 0x100 + self@.bytes[new_fp
                    + PC_OFFSET + 3] == pc,
                self@.bytes[new_fp + NUM_LOCALS_OFFSET] == num_locals,
                self@.bytes[new_fp + RESULT_LOCATION_OFFSET] == VariableRef::spec_encode(
                    result_location,
                ),
                forall|j: int|
                    0 <= j < i ==> #[trigger] word_at(
                        self@.bytes,
                        new_fp + FIRST_LOCAL_OFFSET + 2 * j,
                    ) == 0,
            decreases num_locals - i,
        {
            let ghost before = self@;
            self.push_u16(0);
            proof {
                assert forall|j: int| 0 <= j < i + 1 implies #[trigger] word_at(
                    self@.bytes,
                    new_fp + FIRST_LOCAL_OFFSET + 2 * j,
                ) == 0 by {
                    if j < i {
                        assert(new_fp + FIRST_LOCAL_OFFSET + 2 * j + 1 < before.sp);
                        assert(word_at(before.bytes, new_fp + FIRST_LOCAL_OFFSET + 2 * j) == 0);
                    } else {
                        assert(new_fp + FIRST_LOCAL_OFFSET + 2 * j == before.sp);
                    }
                }
            }
            i = i + 1;
        }
        self.fp = new_fp;
        self.base_sp = self.sp;
        proof {
            assert(self@.eval_stack() =~= Seq::<int>::empty());
        }
        Ok(())
    }

    /// Pop the current frame, restoring the previous frame's registers and
    /// returning the saved PC and result target.  Fatal if the recorded
    /// previous frame does not fit below the current one.
    pub fn pop_frame(&mut self) -> (r: ZResult<(usize, VariableRef)>)
        requires
            old(self)@.wf(),
        ensures
            final(self)@.wf(),
            r.is_ok() == pop_frame_ok(old(self)@),
            match r {
                Ok((ret_pc, result_location)) => {
                    &&& pop_frame_rel(old(self)@, final(self)@, ret_pc as int, result_location)
                    &&& final(self)@ == popped_stack(old(self)@)
                    &&& ret_pc == popped_pc(old(self)@)
                    &&& result_location == popped_var(old(self)@)
                },
                Err(e) => e == Error::Fatal && final(self)@ == old(self)@,
            },
    {
        let old_fp = self.stack[self.fp] as usize * 256 + self.stack[self.fp + 1] as usize;
        if !(old_fp + FIRST_LOCAL_OFFSET <= self.fp) {
            return Err(Error::Fatal);
        }
        let num_locals = self.stack[old_fp + NUM_LOCALS_OFFSET];
        let new_base = old_fp + FIRST_LOCAL_OFFSET + 2 * num_locals as usize;
        if !(new_base <= self.fp) {
            return Err(Error::Fatal);
        }
        if (self.fp - new_base) % 2 != 0 {
            return Err(Error::Fatal);
        }
        let b0 = self.stack[self.fp + PC_OFFSET];
        let b1 = self.stack[self.fp + PC_OFFSET + 1];
        let b2 = self.stack[self.fp + PC_OFFSET + 2];
        let b3 = self.stack[self.fp + PC_OFFSET + 3];
        let old_pc: usize = b0 as usize * 0x1000000 + b1 as usize * 0x10000 + b2 as usize * 0x100
            + b3 as usize;
        let return_var = VariableRef::decode(self.stack[self.fp + RESULT_LOCATION_OFFSET]);
        self.sp = self.fp;
        self.fp = old_fp;
        self.base_sp = new_base;
        Ok((old_pc, return_var))
    }

    /// Read local `local_idx` of the current frame.
    pub fn read_local(&self, local_idx: u8) -> (r: ZResult<u16>)
        requires
            self@.wf(),
        ensures
            local_idx < self@.num_locals() ==> r == ZResult::<u16>::Ok(
                self@.local(local_idx as int) as u16,
            ),
            local_idx >= self@.num_locals() ==> r == ZResult::<u16>::Err(Error::Fatal),
    {
        let num_locals = self.stack[self.fp + NUM_LOCALS_OFFSET];
        if local_idx >= num_locals {
            return Err(Error::Fatal);
        }
        let offset = self.fp + FIRST_LOCAL_OFFSET + 2 * local_idx as usize;
        let hi = self.stack[offset];
        let lo = self.stack[offset + 1];
        Ok(hi as u16 * 256 + lo as u16)
    }

    /// Write local `local_idx` of the current frame.
    pub fn write_local(&mut self, local_idx: u8, val: u16) -> (r: ZResult<()>)
        requires
            old(self)@.wf(),
        ensures
            final(self)@.wf(),
            final(self)@.sp == old(self)@.sp,
            final(self)@.fp == old(self)@.fp,
            final(self)@.base_sp == old(self)@.base_sp,
            local_idx >= old(self)@.num_locals() ==> r == ZResult::<()>::Err(Error::Fatal)
                && final(self)@ == old(self)@,
            local_idx < old(self)@.num_locals() ==> {
                &&& r == ZResult::<()>::Ok(())
                &&& final(self)@.bytes == old(self)@.bytes.update(
                    old(self)@.fp + FIRST_LOCAL_OFFSET + 2 * local_idx,
                    (val / 256) as u8,
                ).update(old(self)@.fp + FIRST_LOCAL_OFFSET + 2 * local_idx + 1, (val % 256) as u8)
                &&& final(self)@.local(local_idx as int) == val
                &&& final(self)@.num_locals() == old(self)@.num_locals()
                &&& final(self)@.eval_stack() == old(self)@.eval_stack()
            },
    {
        let num_locals = self.stack[self.fp + NUM_LOCALS_OFFSET];
        if local_idx >= num_locals {
            return Err(Error::Fatal);
        }
        let offset = self.fp + FIRST_LOCAL_OFFSET + 2 * local_idx as usize;
        self.stack.set(offset, (val / 256) as u8);
        self.stack.set(offset + 1, (val % 256) as u8);
        proof {
            assert(self@.eval_stack() =~= old(self)@.eval_stack());
        }
        Ok(())
    }
}

/// Folding a sequence of pushes over an evaluation stack, word by word.
pub open spec fn pushed(init: Seq<int>, xs: Seq<int>) -> Seq<int>
    decreases xs.len(),
{
    if xs.len() == 0 {
        init
    } else {
        pushed(init, xs.drop_last()).push(xs.last())
    }
}

/// Pushing `x1 … xn` onto an empty evaluation stack leaves exactly
/// `x1 … xn`, so the pops that `pop_u16` performs return `xn, …, x1`:
/// each pop returns the last element pushed and leaves the rest.
pub proof fn lemma_eval_stack_lifo(xs: Seq<int>)
    ensures
        pushed(Seq::<int>::empty(), xs) == xs,
    decreases xs.len(),
{
    if xs.len() == 0 {
        assert(pushed(Seq::<int>::empty(), xs) =~= xs);
    } else {
        lemma_eval_stack_lifo(xs.drop_last());
        assert(pushed(Seq::<int>::empty(), xs) =~= xs);
    }
}

/// Creating a frame and popping it restores the frame pointer and the
/// evaluation-stack base (and the stack pointer) to their former values,
/// and the pop returns exactly the PC and result target the frame was
/// created with.
pub proof fn lemma_frame_round_trip(
    s0: StackModel,
    s1: StackModel,
    s2: StackModel,
    pc: int,
    num_locals: int,
    result_location: VariableRef,
    ret_pc: int,
    ret_location: VariableRef,
)
    requires
        s0.wf(),
        0 <= num_locals <= 15,
        VariableRef::encodable(result_location),
        0 <= pc <= 0xffffffff,
        s0.fp <= 0xffff,
        new_frame_rel(s0, s1, pc, num_locals, result_location),
        pop_frame_rel(s1, s2, ret_pc, ret_location),
    ensures
        s2.fp == s0.fp,
        s2.base_sp == s0.base_sp,
        s2.sp == s0.sp,
        ret_pc == pc,
        ret_location == result_location,
{
    assert(word_at(s1.bytes, s1.fp) == s0.fp);
    assert(s2.fp == s0.fp);
    assert(s1.bytes[s0.fp + NUM_LOCALS_OFFSET] == s0.bytes[s0.fp + NUM_LOCALS_OFFSET]);
    assert(s2.base_sp == s0.base_sp);
    crate::variable::lemma_variable_ref_encode_decode(result_location);
}

/// One frame of the call stack, as the save format presents it: the
/// return PC, the flags byte (the local count), the encoded result
/// target, and the locals and evaluation-stack words.
pub struct FrameInfo {
    pub return_pc: u32,
    pub flags: u8,
    pub result_var: u8,
    pub locals: Vec<u16>,
    pub eval: Vec<u16>,
}

/// The fields of the frame occupying `[start, end)` of the stack bytes:
/// return PC, local count, encoded result target, locals, evaluation
/// words.
pub open spec fn frame_fields(b: Seq<u8>, start: int, end: int) -> (int, int, int, Seq<int>, Seq<
    int,
>) {
    let nl = (b[start + NUM_LOCALS_OFFSET] % 16) as int;
    let locals_end = start + FIRST_LOCAL_OFFSET + 2 * nl;
    (
        b[start + PC_OFFSET] * 0x1000000 + b[start + PC_OFFSET + 1] * 0x10000 + b[start
            + PC_OFFSET + 2] * 0x100 + b[start + PC_OFFSET + 3],
        nl,
        b[start + RESULT_LOCATION_OFFSET] as int,
        Seq::new(nl as nat, |i: int| word_at(b, start + FIRST_LOCAL_OFFSET + 2 * i)),
        Seq::new(((end - locals_end) / 2) as nat, |i: int| word_at(b, locals_end + 2 * i)),
    )
}

/// Whether the frame occupying `[start, end)` is shaped as the layout
/// demands: header and locals inside, and an aligned evaluation stack.
pub open spec fn frame_shape_ok(b: Seq<u8>, start: int, end: int) -> bool {
    let nl = (b[start + NUM_LOCALS_OFFSET] % 16) as int;
    let locals_end = start + FIRST_LOCAL_OFFSET + 2 * nl;
    &&& 0 <= start
    &&& start + FIRST_LOCAL_OFFSET <= end
    &&& locals_end <= end
    &&& end <= b.len()
    &&& (end - locals_end) % 2 == 0
}

/// The frames of the call stack, oldest first, decomposed by following
/// the saved frame pointers down from `[start, end)`; `None` marks a
/// corrupt chain.
pub open spec fn frames_chain(b: Seq<u8>, start: int, end: int) -> Option<
    Seq<(int, int, int, Seq<int>, Seq<int>)>,
>
    decreases start,
{
    if !frame_shape_ok(b, start, end) {
        None
    } else if start == 0 {
        Some(seq![frame_fields(b, start, end)])
    } else {
        let prev = word_at(b, start);
        if prev + FIRST_LOCAL_OFFSET > start {
            None
        } else {
            match frames_chain(b, prev, start) {
                None => None,
                Some(older) => Some(older.push(frame_fields(b, start, end))),
            }
        }
    }
}

/// A frame record carries the fields the decomposition names.
pub open spec fn frame_matches(f: FrameInfo, spec: (int, int, int, Seq<int>, Seq<int>)) -> bool {
    &&& f.return_pc == spec.0
    &&& f.flags == spec.1
    &&& f.result_var == spec.2
    &&& f.locals@.len() == spec.3.len()
    &&& forall|i: int| 0 <= i < spec.3.len() ==> f.locals@[i] == #[trigger] spec.3[i]
    &&& f.eval@.len() == spec.4.len()
    &&& forall|i: int| 0 <= i < spec.4.len() ==> f.eval@[i] == #[trigger] spec.4[i]
}

/// Any frame decomposition of a 16-bit stack has small frames: at most
/// 15 locals each, evaluation stacks within half the byte count, and no
/// more frames than 8-byte headers fit.
pub proof fn lemma_frames_chain_sizes(b: Seq<u8>, start: int, end: int)
    requires
        frames_chain(b, start, end).is_some(),
        0 <= start,
        end <= b.len(),
        b.len() <= 0xffff,
    ensures
        ({
            let fs = frames_chain(b, start, end).unwrap();
            &&& fs.len() <= start / 8 + 1
            &&& forall|k: int|
                0 <= k < fs.len() ==> (#[trigger] fs[k]).3.len() <= 15 && fs[k].4.len() <= 0x8000
        }),
    decreases start,
{
    let fs = frames_chain(b, start, end).unwrap();
    let nl = (b[start + NUM_LOCALS_OFFSET] % 16) as int;
    let cur = frame_fields(b, start, end);
    assert(cur.3.len() == nl <= 15);
    assert(cur.4.len() <= 0x8000);
    if start == 0 {
        assert(fs =~= seq![cur]);
    } else {
        let prev = word_at(b, start);
        lemma_frames_chain_sizes(b, prev, start);
        let older = frames_chain(b, prev, start).unwrap();
        assert(fs =~= older.push(cur));
        assert(prev + FIRST_LOCAL_OFFSET <= start);
        assert(older.len() <= prev / 8 + 1);
        assert(prev / 8 + 1 <= start / 8) by (nonlinear_arith)
            requires
                0 <= prev,
                prev + 8 <= start,
        ;
    }
}

impl Stack {
    /// The big-endian words at `off`, `n` of them.
    fn words_at(&self, off: usize, n: usize) -> (r: Vec<u16>)
        requires
            off + 2 * n <= self@.bytes.len(),
        ensures
            r@.len() == n,
            forall|i: int| 0 <= i < n ==> r@[i] == word_at(self@.bytes, off + 2 * i),
    {
        let len = self.stack.len();
        let mut out: Vec<u16> = Vec::new();
        let mut i: usize = 0;
        while i < n
            invariant
                i <= n,
                off + 2 * n <= len,
                len == self@.bytes.len(),
                out@.len() == i,
                forall|q: int| 0 <= q < i ==> out@[q] == word_at(self@.bytes, off + 2 * q),
            decreases n - i,
        {
            let hi = self.stack[off + 2 * i];
            let lo = self.stack[off + 2 * i + 1];
            out.push(hi as u16 * 256 + lo as u16);
            i = i + 1;
        }
        out
    }

    /// The frames from `[start, end)` down the saved-pointer chain,
    /// oldest first.
    fn frames_from(&self, start: usize, end: usize) -> (r: ZResult<Vec<FrameInfo>>)
        ensures
            match frames_chain(self@.bytes, start as int, end as int) {
                Some(fs) => r.is_ok() && r.unwrap()@.len() == fs.len() && forall|k: int|
                    0 <= k < fs.len() ==> frame_matches(#[trigger] r.unwrap()@[k], fs[k]),
                None => r == ZResult::<Vec<FrameInfo>>::Err(Error::Fatal),
            },
        decreases start,
    {
        let len = self.stack.len();
        if end > len || start > end || end - start < FIRST_LOCAL_OFFSET {
            return Err(Error::Fatal);
        }
        let num_locals = self.stack[start + NUM_LOCALS_OFFSET] % 16;
        if 2 * num_locals as usize > end - start - FIRST_LOCAL_OFFSET {
            return Err(Error::Fatal);
        }
        let locals_end = start + FIRST_LOCAL_OFFSET + 2 * num_locals as usize;
        if (end - locals_end) % 2 != 0 {
            return Err(Error::Fatal);
        }
        let b0 = self.stack[start + PC_OFFSET];
        let b1 = self.stack[start + PC_OFFSET + 1];
        let b2 = self.stack[start + PC_OFFSET + 2];
        let b3 = self.stack[start + PC_OFFSET + 3];
        let return_pc: u32 = b0 as u32 * 0x1000000 + b1 as u32 * 0x10000 + b2 as u32 * 0x100
            + b3 as u32;
        let result_var = self.stack[start + RESULT_LOCATION_OFFSET];
        let locals = self.words_at(start + FIRST_LOCAL_OFFSET, num_locals as usize);
        let eval = self.words_at(locals_end, (end - locals_end) / 2);
        let frame = FrameInfo { return_pc, flags: num_locals, result_var, locals, eval };
        if start == 0 {
            let mut out: Vec<FrameInfo> = Vec::new();
            out.push(frame);
            return Ok(out);
        }
        let prev = self.stack[start] as usize * 256 + self.stack[start + 1] as usize;
        if prev + FIRST_LOCAL_OFFSET > start {
            return Err(Error::Fatal);
        }
        let mut older = self.frames_from(prev, start)?;
        older.push(frame);
        Ok(older)
    }

    /// The frames of the call stack, oldest first.  Fatal when the frame
    /// chain is corrupt.
    pub fn map_frames(&self) -> (r: ZResult<Vec<FrameInfo>>)
        requires
            self@.wf(),
        ensures
            match frames_chain(self@.bytes, self@.fp, self@.sp) {
                Some(fs) => r.is_ok() && r.unwrap()@.len() == fs.len() && forall|k: int|
                    0 <= k < fs.len() ==> frame_matches(#[trigger] r.unwrap()@[k], fs[k]),
                None => r == ZResult::<Vec<FrameInfo>>::Err(Error::Fatal),
            },
    {
        self.frames_from(self.fp, self.sp)
    }
}

} // verus!
