//! The virtual machine: it binds memory, program counter, call stack,
//! dictionary and random-number generator, and exposes the uniform surface
//! the opcode handlers use — program-counter fetches, variable access with
//! its observable stack effects, memory access confined to dynamic memory,
//! frames, and the screen buffers the host drains.
//!
//! The host is expected to run the fetch–decode–execute loop: step the
//! machine, flush the output buffers, honour a pending read request, and
//! handle the `Quitting` and `Restart` sentinels.

use vstd::prelude::*;

use crate::dictionary::Dictionary;
use crate::memory::{mem_wf, word_at, Memory, FLAG1_INDEX, GLOBAL_TABLE_INDEX};
use crate::pc::PC;
use crate::ptrs::{BytePtr, RawPtr};
use crate::result::{Error, ZResult};
use crate::rng::ZRng;
use crate::stack::{
    new_frame_rel, pop_frame_ok, popped_pc, popped_stack, popped_var, Stack, StackModel,
    FIRST_LOCAL_OFFSET,
};
use crate::variable::VariableRef;

verus! {

/// The abstract state of the machine.
pub struct ZView {
    pub mem: Seq<u8>,
    pub snap: Seq<u8>,
    pub sbase: int,
    pub pc: int,
    pub stack: StackModel,
    pub main_out: Seq<u8>,
    pub status_out: Seq<u8>,
    pub screen_cols: u16,
    pub save_out: Option<Seq<u8>>,
    pub pending_read: Option<(u16, u16)>,
}

/// The machine state is well formed: the memory invariant holds, the
/// image carries a header, and the stack registers are consistent.
pub open spec fn zview_wf(s: ZView) -> bool {
    &&& mem_wf(s.mem, s.snap, s.sbase)
    &&& s.mem.len() >= 64
    &&& s.stack.wf()
    &&& 0 <= s.pc
}

/// The memory image as `from_memory` leaves it: the file image with the
/// interpreter's capability bits cleared in flag byte 1.
pub open spec fn boot_mem(snap: Seq<u8>) -> Seq<u8> {
    snap.update(FLAG1_INDEX as int, (snap[FLAG1_INDEX as int] & 0x8f))
}

/// The memory after a restart: the boot image of the snapshot, with the
/// transcription and fixed-pitch bits of Flags 2 (the low two bits of
/// the word at 0x10) surviving from the running state, as the format
/// requires of a restart.
pub open spec fn restart_mem(snap: Seq<u8>, cur: Seq<u8>) -> Seq<u8> {
    boot_mem(snap).update(0x11, ((snap[0x11] & 0xfc) | (cur[0x11] & 0x03)))
}

/// What `restart` guarantees: the snapshot is kept and memory is reset
/// to the boot image, the surviving Flags 2 bits aside.
pub open spec fn restart_rel(s0: ZView, s1: ZView) -> bool {
    s1.snap == s0.snap && s1.mem == restart_mem(s0.snap, s0.mem)
}

/// Restart restores the memory of the freshly loaded machine: if a
/// machine was loaded from an image (so its memory was the boot image of
/// its snapshot), then after any run that left the surviving Flags 2
/// bits as loaded, a restart brings memory back to the loaded state byte
/// for byte.  Reads take the machine immutably, so a sequence of
/// non-writing reads cannot change it further.  A run that toggled the
/// transcription or fixed-pitch bit keeps exactly those bits, as the
/// format requires.
pub proof fn lemma_restart_restores_load_state(s_load: ZView, s_now: ZView, s_restarted: ZView)
    requires
        s_load.mem == boot_mem(s_load.snap),
        s_now.snap == s_load.snap,
        s_now.mem[0x11] & 0x03 == s_load.snap[0x11] & 0x03,
        0x11 < s_load.snap.len(),
        restart_rel(s_now, s_restarted),
    ensures
        s_restarted.mem == s_load.mem,
{
    let b = s_load.snap[0x11];
    assert((b & 0xfc) | (b & 0x03) == b) by (bit_vector);
    assert(s_restarted.mem =~= s_load.mem);
}

/// The raw offset of global `g`.
pub open spec fn global_off(s: ZView, g: u8) -> int {
    word_at(s.mem, GLOBAL_TABLE_INDEX as int) + 2 * g
}

/// Whether reading variable `v` can succeed: a stack read needs a
/// non-empty evaluation stack, a local must exist in the current frame,
/// and a global slot must lie inside the image and the 16-bit space.
pub open spec fn read_var_ok(s: ZView, v: VariableRef) -> bool {
    match v {
        VariableRef::Stack => s.stack.eval_stack().len() > 0,
        VariableRef::Local(i) => i < s.stack.num_locals(),
        VariableRef::Global(g) => g < 240 && global_off(s, g) + 2 <= s.mem.len() && global_off(s, g)
            + 2 <= 0x10000,
    }
}

/// The value read from variable `v`.
pub open spec fn read_var_val(s: ZView, v: VariableRef) -> u16 {
    match v {
        VariableRef::Stack => s.stack.eval_stack().last() as u16,
        VariableRef::Local(i) => s.stack.local(i as int) as u16,
        VariableRef::Global(g) => word_at(s.mem, global_off(s, g)) as u16,
    }
}

/// The state after reading `v`: reading the stack pops it, everything
/// else is untouched.
pub open spec fn read_var_step(s: ZView, v: VariableRef) -> ZView {
    match v {
        VariableRef::Stack => ZView { stack: StackModel { sp: s.stack.sp - 2, ..s.stack }, ..s },
        _ => s,
    }
}

/// Whether writing variable `v` can succeed: a stack write needs room to
/// push, and a global slot must lie in dynamic memory.
pub open spec fn write_var_ok(s: ZView, v: VariableRef) -> bool {
    match v {
        VariableRef::Stack => s.stack.sp + 2 <= s.stack.bytes.len(),
        VariableRef::Local(i) => i < s.stack.num_locals(),
        VariableRef::Global(g) => g < 240 && global_off(s, g) + 2 <= s.sbase && global_off(s, g) + 2
            <= 0x10000,
    }
}

/// Two bytes of `b` replaced by the big-endian halves of `val`.
pub open spec fn put_word(b: Seq<u8>, i: int, val: u16) -> Seq<u8> {
    b.update(i, (val / 256) as u8).update(i + 1, (val % 256) as u8)
}

/// The state with save-file bytes `q` handed to the host.
pub open spec fn with_save(s: ZView, q: Seq<u8>) -> ZView {
    ZView { save_out: Some(q), ..s }
}

/// The state after writing `val` to variable `v` (a stack write pushes).
pub open spec fn write_var_step(s: ZView, v: VariableRef, val: u16) -> ZView {
    match v {
        VariableRef::Stack => ZView {
            stack: StackModel {
                bytes: put_word(s.stack.bytes, s.stack.sp, val),
                sp: s.stack.sp + 2,
                ..s.stack
            },
            ..s
        },
        VariableRef::Local(i) => ZView {
            stack: StackModel {
                bytes: put_word(
                    s.stack.bytes,
                    s.stack.fp + FIRST_LOCAL_OFFSET + 2 * i,
                    val,
                ),
                ..s.stack
            },
            ..s
        },
        VariableRef::Global(g) => ZView { mem: put_word(s.mem, global_off(s, g), val), ..s },
    }
}

/// The state after returning `value` from the current frame: the frame is
/// popped, the value stored to the frame's result target, and the PC
/// restored — or `None` where any step is impossible.
pub open spec fn ret_step(s: ZView, value: u16) -> Option<ZView> {
    if !pop_frame_ok(s.stack) {
        None
    } else {
        let s1 = ZView { stack: popped_stack(s.stack), ..s };
        let rvar = popped_var(s.stack);
        if !write_var_ok(s1, rvar) {
            None
        } else {
            Some(ZView { pc: popped_pc(s.stack), ..write_var_step(s1, rvar, value) })
        }
    }
}

/// The virtual machine.
pub struct ZMachine {
    memory: Memory,
    pc: PC,
    stack: Stack,
    dict: Dictionary,
    rng: ZRng,
    screen_cols: u16,
    main_out: Vec<u8>,
    status_out: Vec<u8>,
    save_out: Option<Vec<u8>>,
    pending_read: Option<(u16, u16)>,
}

impl View for ZMachine {
    type V = ZView;

    closed spec fn view(&self) -> ZView {
        ZView {
            mem: self.memory@,
            snap: self.memory.snapshot(),
            sbase: self.memory.sbase(),
            pc: self.pc.spec_pc(),
            stack: self.stack@,
            main_out: self.main_out@,
            status_out: self.status_out@,
            screen_cols: self.screen_cols,
            save_out: match self.save_out {
                Some(ref v) => Some(v@),
                None => None,
            },
            pending_read: self.pending_read,
        }
    }
}

impl ZMachine {
    /// The machine's well-formedness; established at load and preserved
    /// by every operation.
    pub open spec fn wf(&self) -> bool {
        zview_wf(self@)
    }

    proof fn memory_wf(&self)
        requires
            self.wf(),
        ensures
            self.memory.wf(),
    {
        crate::memory::lemma_wf_open(self.memory);
    }

    /// Build a machine over a loaded memory image: the stack gets a
    /// single empty frame, the PC starts at the header's starting point,
    /// the dictionary header is parsed, and the interpreter clears the
    /// status-line, split-screen and fixed-font capability bits of flag
    /// byte 1 to advertise what it cannot do.
    pub fn from_memory<T: crate::zconfig::ZConfig>(memory: Memory, config: &T) -> (r: ZResult<
        ZMachine,
    >)
        requires
            memory.wf(),
        ensures
            r.is_ok() == (memory@.len() >= 64 && Dictionary::parse_ok(memory@)),
            match r {
                Ok(vm) => {
                    &&& vm.wf()
                    &&& memory@.len() >= 64
                    &&& vm@.snap == memory.snapshot()
                    &&& vm@.mem == boot_mem(memory@)
                    &&& memory@ == memory.snapshot() ==> vm@.mem == boot_mem(vm@.snap)
                    &&& vm@.pc == word_at(memory@, 0x06)
                    &&& vm@.main_out == Seq::<u8>::empty()
                    &&& vm@.status_out == Seq::<u8>::empty()
                    &&& vm@.pending_read == None::<(u16, u16)>
                    &&& vm@.save_out == None::<Seq<u8>>
                },
                Err(e) => if memory@.len() < 64 {
                    e == Error::CouldNotReadHeader
                } else {
                    e == Error::Fatal
                },
            },
    {
        if memory.size() < 64 {
            return Err(Error::CouldNotReadHeader);
        }
        proof {
            crate::memory::lemma_wf_open(memory);
        }
        let stack_size = match config.stack_size() {
            Some(n) => n,
            None => 0xf000,
        };
        let size = if FIRST_LOCAL_OFFSET <= stack_size && stack_size < 0x10000 {
            stack_size
        } else {
            0xf000
        };
        let mut memory = memory;
        let start = memory.starting_pc();
        let dict = match Dictionary::new(&memory) {
            Ok(d) => d,
            Err(e) => {
                return Err(e);
            },
        };
        // Clear bits 4..6 of flag byte 1: no status line, no split
        // screen, no variable-width default font.
        let flag1 = memory.flag1();
        memory.set_flag1(flag1 & 0x8f);
        let vm = ZMachine {
            memory,
            pc: PC::new(start.to_raw()),
            stack: Stack::new(size),
            dict,
            rng: ZRng::new_random(),
            screen_cols: 80,
            main_out: Vec::new(),
            status_out: Vec::new(),
            save_out: None,
            pending_read: None,
        };
        proof {
            crate::memory::lemma_wf_open(vm.memory);
        }
        Ok(vm)
    }

    /// Build a machine from the raw bytes of a story file.  A file too
    /// short for the header is rejected, as is one whose header declares
    /// more useful bytes than were provided.
    pub fn from_bytes(bytes: Vec<u8>, stack_size: usize) -> (r: ZResult<ZMachine>)
        ensures
            (r == ZResult::<ZMachine>::Err(Error::CouldNotReadHeader)) == (bytes@.len() < 64),
            (r == ZResult::<ZMachine>::Err(Error::ZFileTooShort)) == (bytes@.len() >= 64 && 2
                * word_at(bytes@, 0x1a) != 0 && 2 * word_at(bytes@, 0x1a) > bytes@.len()),
            r.is_ok() == (bytes@.len() >= 64 && !(2 * word_at(bytes@, 0x1a) != 0 && 2 * word_at(
                bytes@,
                0x1a,
            ) > bytes@.len()) && Dictionary::parse_ok(bytes@)),
            r.is_ok() ==> {
                let vm = r.unwrap();
                &&& vm.wf()
                &&& vm@.snap == bytes@
                &&& vm@.mem == boot_mem(bytes@)
                &&& vm@.pc == word_at(bytes@, 0x06)
                &&& vm@.main_out == Seq::<u8>::empty()
                &&& vm@.pending_read == None::<(u16, u16)>
                &&& vm@.save_out == None::<Seq<u8>>
            },
    {
        if bytes.len() < 64 {
            return Err(Error::CouldNotReadHeader);
        }
        let n = bytes.len();
        let memory = Memory::new(bytes);
        let expected = memory.file_length();
        if expected != 0 && expected as usize > n {
            return Err(Error::ZFileTooShort);
        }
        let config = crate::zconfig::ZConfigStack {
            sizes: vec![Some(stack_size), None],
        };
        if stack_size == 0 {
            let defaults = crate::zconfig::ZDefaults::new();
            ZMachine::from_memory(memory, &defaults)
        } else {
            ZMachine::from_memory(memory, &config)
        }
    }

    /// Reload dynamic memory from the load-time snapshot, reset the stack
    /// to a single empty bottom frame, set the PC back to the starting
    /// point, and re-advertise the interpreter's capabilities in flag
    /// byte 1 — exactly the state `from_memory` produced.
    pub fn restart(&mut self)
        requires
            old(self).wf(),
        ensures
            final(self).wf(),
            restart_rel(old(self)@, final(self)@),
            final(self)@.snap == old(self)@.snap,
            final(self)@.mem == restart_mem(old(self)@.snap, old(self)@.mem),
            final(self)@.pc == word_at(old(self)@.snap, 0x06),
            final(self)@.stack.fp == 0,
            final(self)@.stack.sp == FIRST_LOCAL_OFFSET,
            final(self)@.stack.base_sp == FIRST_LOCAL_OFFSET,
            final(self)@.stack.bytes.len() == old(self)@.stack.bytes.len(),
    {
        proof {
            self.memory_wf();
        }
        let survivors = self.memory.u8_at_index(0x11) % 4;
        self.memory.restore_dynamic_bytes();
        let flag1 = self.memory.flag1();
        self.memory.set_flag1(flag1 & 0x8f);
        let flags2 = self.memory.u8_at_index(0x11);
        self.memory.set_index_to_u8(0x11, (flags2 / 4) * 4 + survivors);
        proof {
            let ghost cb = old(self)@.mem[0x11];
            let ghost sn = old(self)@.snap[0x11];
            assert(cb % 4 == cb & 0x03) by (bit_vector);
            assert((sn / 4) * 4 + (cb & 0x03) == ((sn & 0xfc) | (cb & 0x03))) by (bit_vector);
        }
        let size = self.stack.size();
        self.stack = Stack::new(size);
        let start = self.memory.starting_pc();
        self.pc.set_pc(start.to_raw());
        proof {
            crate::memory::lemma_wf_open(self.memory);
        }
    }

    /// Advance the PC past the next byte, returning that byte.
    pub fn read_pc_byte(&mut self) -> (r: ZResult<u8>)
        requires
            old(self).wf(),
        ensures
            final(self).wf(),
            old(self)@.pc + 1 <= old(self)@.mem.len() ==> r == ZResult::<u8>::Ok(
                old(self)@.mem[old(self)@.pc],
            ) && final(self)@ == (ZView { pc: old(self)@.pc + 1, ..old(self)@ }),
            old(self)@.pc + 1 > old(self)@.mem.len() ==> r == ZResult::<u8>::Err(Error::Fatal)
                && final(self)@ == old(self)@,
    {
        let here = self.pc.pc().ptr();
        if here >= self.memory.size() {
            return Err(Error::Fatal);
        }
        Ok(self.pc.next_byte(&self.memory))
    }

    /// Advance the PC past the next word, returning that word.
    pub fn read_pc_word(&mut self) -> (r: ZResult<u16>)
        requires
            old(self).wf(),
        ensures
            final(self).wf(),
            old(self)@.pc + 2 <= old(self)@.mem.len() ==> r == ZResult::<u16>::Ok(
                word_at(old(self)@.mem, old(self)@.pc) as u16,
            ) && final(self)@ == (ZView { pc: old(self)@.pc + 2, ..old(self)@ }),
            old(self)@.pc + 2 > old(self)@.mem.len() ==> r == ZResult::<u16>::Err(Error::Fatal)
                && final(self)@ == old(self)@,
    {
        let here = self.pc.pc().ptr();
        let n = self.memory.size();
        if here >= n || n - here < 2 {
            return Err(Error::Fatal);
        }
        Ok(self.pc.next_word(&self.memory))
    }

    /// The current value of the PC.
    pub fn current_pc(&self) -> (r: usize)
        ensures
            r == self@.pc,
    {
        self.pc.pc().ptr()
    }

    /// Set the PC.
    pub fn set_current_pc(&mut self, pc: usize) -> (r: ZResult<()>)
        requires
            old(self).wf(),
        ensures
            final(self).wf(),
            r == ZResult::<()>::Ok(()),
            final(self)@ == (ZView { pc: pc as int, ..old(self)@ }),
    {
        self.pc.set_raw_pc(pc);
        Ok(())
    }

    /// Add `offset`, a signed 14-bit branch offset, to the PC.
    pub fn offset_pc(&mut self, offset: i16) -> (r: ZResult<()>)
        requires
            old(self).wf(),
        ensures
            final(self).wf(),
            0 <= old(self)@.pc + offset <= usize::MAX ==> r == ZResult::<()>::Ok(()) && final(self)@ == (ZView { pc: old(self)@.pc + offset, ..old(self)@ }),
            !(0 <= old(self)@.pc + offset <= usize::MAX) ==> r == ZResult::<()>::Err(Error::Fatal)
                && final(self)@ == old(self)@,
    {
        let here = self.pc.pc().ptr();
        let off32 = offset as i32;
        if off32 >= 0 {
            let add = off32 as usize;
            if here <= usize::MAX - add {
                self.pc.set_raw_pc(here + add);
                Ok(())
            } else {
                Err(Error::Fatal)
            }
        } else {
            let sub = (-off32) as usize;
            if here >= sub {
                self.pc.set_raw_pc(here - sub);
                Ok(())
            } else {
                Err(Error::Fatal)
            }
        }
    }

    /// Create a new stack frame with `num_locals` zeroed locals.
    pub fn new_frame(
        &mut self,
        ret_pc: usize,
        num_locals: u8,
        result_location: VariableRef,
    ) -> (r: ZResult<()>)
        requires
            old(self).wf(),
        ensures
            final(self).wf(),
            ({
                let s0 = old(self)@;
                let fits = num_locals <= 15 && ret_pc <= 0xffffffff
                    && VariableRef::encodable(result_location) && s0.stack.sp + FIRST_LOCAL_OFFSET
                    + 2 * num_locals <= s0.stack.bytes.len();
                if fits {
                    r == ZResult::<()>::Ok(()) && new_frame_rel(
                        s0.stack,
                        final(self)@.stack,
                        ret_pc as int,
                        num_locals as int,
                        result_location,
                    ) && final(self)@ == (ZView { stack: final(self)@.stack, ..s0 })
                } else {
                    r == ZResult::<()>::Err(Error::Fatal) && final(self)@ == s0
                }
            }),
    {
        if num_locals > 15 || ret_pc > 0xffffffff {
            return Err(Error::Fatal);
        }
        let enc_ok = match result_location {
            VariableRef::Stack => true,
            VariableRef::Local(i) => i < 15,
            VariableRef::Global(g) => g < 240,
        };
        if !enc_ok {
            return Err(Error::Fatal);
        }
        self.stack.new_frame(ret_pc, num_locals, result_location)
    }

    /// Pop the current frame, returning the saved PC and result target.
    pub fn pop_frame(&mut self) -> (r: ZResult<(usize, VariableRef)>)
        requires
            old(self).wf(),
        ensures
            final(self).wf(),
            r.is_ok() == pop_frame_ok(old(self)@.stack),
            match r {
                Ok((ret_pc, rvar)) => {
                    &&& final(self)@ == (ZView { stack: popped_stack(old(self)@.stack), ..old(self)@ })
                    &&& ret_pc == popped_pc(old(self)@.stack)
                    &&& rvar == popped_var(old(self)@.stack)
                },
                Err(e) => e == Error::Fatal && final(self)@ == old(self)@,
            },
    {
        self.stack.pop_frame()
    }

    /// Pop a word off the evaluation stack.
    pub fn pop_stack(&mut self) -> (r: ZResult<u16>)
        requires
            old(self).wf(),
        ensures
            final(self).wf(),
            read_var_ok(old(self)@, VariableRef::Stack) ==> r == ZResult::<u16>::Ok(
                read_var_val(old(self)@, VariableRef::Stack),
            ) && final(self)@ == read_var_step(old(self)@, VariableRef::Stack),
            !read_var_ok(old(self)@, VariableRef::Stack) ==> r == ZResult::<u16>::Err(Error::Fatal)
                && final(self)@ == old(self)@,
    {
        self.stack.pop_u16()
    }

    /// Push a word onto the evaluation stack.
    pub fn push_stack(&mut self, val: u16) -> (r: ZResult<()>)
        requires
            old(self).wf(),
        ensures
            final(self).wf(),
            write_var_ok(old(self)@, VariableRef::Stack) ==> r == ZResult::<()>::Ok(()) && final(self)@ == write_var_step(old(self)@, VariableRef::Stack, val),
            !write_var_ok(old(self)@, VariableRef::Stack) ==> r == ZResult::<()>::Err(Error::Fatal)
                && final(self)@ == old(self)@,
    {
        let n = self.stack.size();
        let sp = self.stack.sp();
        if n - sp < 2 {
            return Err(Error::Fatal);
        }
        self.stack.push_u16(val);
        Ok(())
    }

    /// Read local `local_idx` of the current frame.
    pub fn read_local(&self, local_idx: u8) -> (r: ZResult<u16>)
        requires
            self.wf(),
        ensures
            read_var_ok(self@, VariableRef::Local(local_idx)) ==> r == ZResult::<u16>::Ok(
                read_var_val(self@, VariableRef::Local(local_idx)),
            ),
            !read_var_ok(self@, VariableRef::Local(local_idx)) ==> r == ZResult::<u16>::Err(
                Error::Fatal,
            ),
    {
        self.stack.read_local(local_idx)
    }

    /// Write local `local_idx` of the current frame.
    pub fn write_local(&mut self, local_idx: u8, val: u16) -> (r: ZResult<()>)
        requires
            old(self).wf(),
        ensures
            final(self).wf(),
            write_var_ok(old(self)@, VariableRef::Local(local_idx)) ==> r == ZResult::<()>::Ok(())
                && final(self)@ == write_var_step(old(self)@, VariableRef::Local(local_idx), val),
            !write_var_ok(old(self)@, VariableRef::Local(local_idx)) ==> r == ZResult::<()>::Err(
                Error::Fatal,
            ) && final(self)@ == old(self)@,
    {
        self.stack.write_local(local_idx, val)
    }

    /// Read global `global_idx`.
    pub fn read_global(&self, global_idx: u8) -> (r: ZResult<u16>)
        requires
            self.wf(),
        ensures
            read_var_ok(self@, VariableRef::Global(global_idx)) ==> r == ZResult::<u16>::Ok(
                read_var_val(self@, VariableRef::Global(global_idx)),
            ),
            !read_var_ok(self@, VariableRef::Global(global_idx)) ==> r == ZResult::<u16>::Err(
                Error::Fatal,
            ),
    {
        if global_idx >= 240 {
            return Err(Error::Fatal);
        }
        let base = self.memory.global_base_ptr().to_raw().ptr();
        let off = base + 2 * global_idx as usize;
        if off + 2 > self.memory.size() || off + 2 > 0x10000 {
            return Err(Error::Fatal);
        }
        Ok(self.memory.read_global(global_idx))
    }

    /// Write global `global_idx`; the slot must lie in dynamic memory.
    pub fn write_global(&mut self, global_idx: u8, val: u16) -> (r: ZResult<()>)
        requires
            old(self).wf(),
        ensures
            final(self).wf(),
            write_var_ok(old(self)@, VariableRef::Global(global_idx)) ==> r == ZResult::<()>::Ok(
                (),
            ) && final(self)@ == write_var_step(old(self)@, VariableRef::Global(global_idx), val),
            !write_var_ok(old(self)@, VariableRef::Global(global_idx)) ==> r == ZResult::<()>::Err(
                Error::Fatal,
            ) && final(self)@ == old(self)@,
    {
        if global_idx >= 240 {
            return Err(Error::Fatal);
        }
        let base = self.memory.global_base_ptr().to_raw().ptr();
        let off = base + 2 * global_idx as usize;
        if off + 2 > self.memory.static_base() || off + 2 > 0x10000 {
            return Err(Error::Fatal);
        }
        proof {
            self.memory_wf();
        }
        self.memory.write_global(global_idx, val);
        proof {
            crate::memory::lemma_wf_open(self.memory);
            assert(final(self)@.mem =~= put_word(
                old(self)@.mem,
                global_off(old(self)@, global_idx),
                val,
            ));
        }
        Ok(())
    }

    /// Read the value of `variable`, with the observable stack effect: a
    /// stack read pops.
    pub fn read_variable(&mut self, variable: VariableRef) -> (r: ZResult<u16>)
        requires
            old(self).wf(),
        ensures
            final(self).wf(),
            read_var_ok(old(self)@, variable) ==> r == ZResult::<u16>::Ok(
                read_var_val(old(self)@, variable),
            ) && final(self)@ == read_var_step(old(self)@, variable),
            !read_var_ok(old(self)@, variable) ==> r == ZResult::<u16>::Err(Error::Fatal) && final(self)@ == old(self)@,
    {
        match variable {
            VariableRef::Stack => self.pop_stack(),
            VariableRef::Local(idx) => self.read_local(idx),
            VariableRef::Global(idx) => self.read_global(idx),
        }
    }

    /// Read the value of `variable` without consuming it: a stack read
    /// returns the top without popping.
    pub fn read_variable_no_pop(&self, variable: VariableRef) -> (r: ZResult<u16>)
        requires
            self.wf(),
        ensures
            read_var_ok(self@, variable) ==> r == ZResult::<u16>::Ok(read_var_val(self@, variable)),
            !read_var_ok(self@, variable) ==> r == ZResult::<u16>::Err(Error::Fatal),
    {
        match variable {
            VariableRef::Stack => self.stack.peek_u16(),
            VariableRef::Local(idx) => self.read_local(idx),
            VariableRef::Global(idx) => self.read_global(idx),
        }
    }

    /// Write `value` to `variable`, with the observable stack effect: a
    /// stack write pushes.
    pub fn write_variable(&mut self, variable: VariableRef, value: u16) -> (r: ZResult<()>)
        requires
            old(self).wf(),
        ensures
            final(self).wf(),
            write_var_ok(old(self)@, variable) ==> r == ZResult::<()>::Ok(()) && final(self)@
                == write_var_step(old(self)@, variable, value),
            !write_var_ok(old(self)@, variable) ==> r == ZResult::<()>::Err(Error::Fatal) && final(self)@ == old(self)@,
    {
        match variable {
            VariableRef::Stack => self.push_stack(value),
            VariableRef::Local(idx) => self.write_local(idx, value),
            VariableRef::Global(idx) => self.write_global(idx, value),
        }
    }

    /// Return `value` from the current routine: pop the frame, store the
    /// value to the frame's result target, and restore the saved PC.
    pub fn ret_value(&mut self, value: u16) -> (r: ZResult<()>)
        requires
            old(self).wf(),
        ensures
            final(self).wf(),
            match ret_step(old(self)@, value) {
                Some(s1) => r == ZResult::<()>::Ok(()) && final(self)@ == s1,
                None => r == ZResult::<()>::Err(Error::Fatal),
            },
    {
        let (pc, result_var) = self.pop_frame()?;
        self.write_variable(result_var, value)?;
        self.set_current_pc(pc)?;
        Ok(())
    }

    /// The dictionary's entry count, at the specification level.
    pub closed spec fn dict_num(&self) -> u16 {
        self.dict.spec_num_entries()
    }

    /// The dictionary's per-entry size, at the specification level.
    pub closed spec fn dict_entry_len(&self) -> u8 {
        self.dict.spec_entry_length()
    }

    /// The raw offset of the dictionary's first entry, at the
    /// specification level.
    pub closed spec fn dict_entries_base(&self) -> int {
        self.dict.spec_entries_ptr()
    }

    /// The number of dictionary entries.
    pub fn num_dict_entries(&self) -> (r: u16)
        ensures
            r == self.dict_num(),
    {
        self.dict.num_entries()
    }

    /// The address of dictionary entry `number` (1-based).
    pub fn dict_entry(&self, number: u16) -> (r: ZResult<BytePtr>)
        requires
            1 <= number,
        ensures
            r.is_ok() == (self.dict_entries_base() + self.dict_entry_len() * (number - 1)
                <= 0xffff),
            match r {
                Ok(p) => p.raw() == self.dict_entries_base() + self.dict_entry_len() * (number - 1)
                    && p.raw() <= 0xffff,
                Err(e) => e == Error::Fatal,
            },
    {
        self.dict.entry_ptr(number)
    }

    /// A random value: 1..=range, uniformly.
    pub fn rand(&mut self, range: u16) -> (r: u16)
        requires
            range > 0,
        ensures
            1 <= r <= range,
            final(self)@ == old(self)@,
    {
        self.rng.next_in_range(range)
    }

    /// Seed the generator deterministically.
    pub fn seed_rng(&mut self, seed: u16)
        ensures
            final(self)@ == old(self)@,
    {
        self.rng.seed(seed as u64);
    }

    /// Reseed the generator unpredictably.
    pub fn reseed_rng(&mut self)
        ensures
            final(self)@ == old(self)@,
    {
        self.rng.reseed_random();
    }

    /// Replace the status line with `text`.
    pub fn write_status_line(&mut self, text: &Vec<u8>)
        ensures
            final(self)@ == (ZView { status_out: text@, ..old(self)@ }),
    {
        let mut copy: Vec<u8> = Vec::new();
        let mut i: usize = 0;
        while i < text.len()
            invariant
                copy@ == text@.subrange(0, i as int),
                i <= text@.len(),
            decreases text@.len() - i,
        {
            let b = text[i];
            copy.push(b);
            i = i + 1;
            proof {
                assert(copy@ =~= text@.subrange(0, i as int));
            }
        }
        proof {
            assert(text@.subrange(0, text@.len() as int) =~= text@);
        }
        self.status_out = copy;
    }

    /// The screen width in columns, as the host reported it.
    pub fn screen_width(&self) -> (r: u16)
        ensures
            r == self@.screen_cols,
    {
        self.screen_cols
    }

    /// Record the host's screen width.
    pub fn set_screen_width(&mut self, cols: u16)
        ensures
            final(self)@ == (ZView { screen_cols: cols, ..old(self)@ }),
    {
        self.screen_cols = cols;
    }

    /// Append one character, as a byte, to the main window.
    pub fn write_main_window_char(&mut self, ch: u8)
        ensures
            final(self)@ == (ZView { main_out: old(self)@.main_out.push(ch), ..old(self)@ }),
    {
        self.main_out.push(ch);
    }

    /// Append `text` to the main window.
    pub fn write_main_window(&mut self, text: &Vec<u8>)
        ensures
            final(self)@ == (ZView { main_out: old(self)@.main_out + text@, ..old(self)@ }),
    {
        let mut i: usize = 0;
        while i < text.len()
            invariant
                self.main_out@ == old(self).main_out@ + text@.subrange(0, i as int),
                i <= text@.len(),
                self.memory == old(self).memory,
                self.pc == old(self).pc,
                self.stack == old(self).stack,
                self.dict == old(self).dict,
                self.screen_cols == old(self).screen_cols,
                self.status_out == old(self).status_out,
                self.save_out == old(self).save_out,
                self.pending_read == old(self).pending_read,
                self.rng == old(self).rng,
            decreases text@.len() - i,
        {
            let b = text[i];
            self.main_out.push(b);
            i = i + 1;
            proof {
                assert(self.main_out@ =~= old(self).main_out@ + text@.subrange(0, i as int));
            }
        }
        proof {
            assert(text@.subrange(0, text@.len() as int) =~= text@);
            assert(old(self).main_out@ + text@.subrange(0, text@.len() as int) =~= old(self).main_out@ + text@);
        }
    }

    /// Hand the main-window output accumulated so far to the host,
    /// leaving the buffer empty.
    pub fn take_main_output(&mut self) -> (r: Vec<u8>)
        ensures
            r@ == old(self)@.main_out,
            final(self)@ == (ZView { main_out: Seq::<u8>::empty(), ..old(self)@ }),
    {
        let mut out: Vec<u8> = Vec::new();
        core::mem::swap(&mut out, &mut self.main_out);
        proof {
            assert(self.main_out@ =~= Seq::<u8>::empty());
        }
        out
    }

    /// The status line to show, as the `show_status` opcode last built it.
    pub fn status_line(&self) -> (r: &Vec<u8>)
        ensures
            r@ == self@.status_out,
    {
        &self.status_out
    }

    /// Take the save-file bytes the last `save` opcode produced, if any.
    pub fn take_save_output(&mut self) -> (r: Option<Vec<u8>>)
        ensures
            match r {
                Some(v) => old(self)@.save_out == Some(v@),
                None => old(self)@.save_out == None::<Seq<u8>>,
            },
            final(self)@ == (ZView { save_out: None::<Seq<u8>>, ..old(self)@ }),
    {
        let mut out: Option<Vec<u8>> = None;
        core::mem::swap(&mut out, &mut self.save_out);
        out
    }

    /// Record the save-file bytes for the host to take.
    pub fn set_save_output(&mut self, bytes: Vec<u8>)
        ensures
            final(self)@ == (ZView { save_out: Some(bytes@), ..old(self)@ }),
    {
        self.save_out = Some(bytes);
    }

    /// The buffers a pending `read` opcode is waiting to fill: the text
    /// buffer and parse buffer addresses.
    pub fn pending_read(&self) -> (r: Option<(u16, u16)>)
        ensures
            r == self@.pending_read,
    {
        self.pending_read
    }

    /// Record that a `read` opcode awaits an input line.
    pub fn set_pending_read(&mut self, tbuf: u16, pbuf: u16)
        ensures
            final(self)@ == (ZView {
                pending_read: Some((tbuf, pbuf)),
                ..old(self)@
            }),
    {
        self.pending_read = Some((tbuf, pbuf));
    }

    /// Clear the pending read request.
    pub fn clear_pending_read(&mut self)
        ensures
            final(self)@ == (ZView { pending_read: None::<(u16, u16)>, ..old(self)@ }),
            final(self).dict_num() == old(self).dict_num(),
            final(self).dict_entry_len() == old(self).dict_entry_len(),
            final(self).dict_entries_base() == old(self).dict_entries_base(),
    {
        self.pending_read = None;
    }

    /// Read the word at `ptr`.
    pub fn read_memory(&self, ptr: RawPtr) -> (r: ZResult<u16>)
        requires
            self.wf(),
        ensures
            ptr.raw() + 2 <= self@.mem.len() ==> r == ZResult::<u16>::Ok(
                word_at(self@.mem, ptr.raw()) as u16,
            ),
            ptr.raw() + 2 > self@.mem.len() ==> r == ZResult::<u16>::Err(Error::Fatal),
    {
        let n = self.memory.size();
        let p = ptr.ptr();
        if p >= n || n - p < 2 {
            return Err(Error::Fatal);
        }
        Ok(self.memory.u16_at(ptr))
    }

    /// Write the word `val` at `ptr`, which must lie in dynamic memory.
    pub fn write_memory(&mut self, ptr: RawPtr, val: u16) -> (r: ZResult<()>)
        requires
            old(self).wf(),
        ensures
            final(self).wf(),
            final(self).dict_num() == old(self).dict_num(),
            final(self).dict_entry_len() == old(self).dict_entry_len(),
            final(self).dict_entries_base() == old(self).dict_entries_base(),
            ptr.raw() + 2 <= old(self)@.sbase ==> r == ZResult::<()>::Ok(()) && final(self)@
                == (ZView { mem: put_word(old(self)@.mem, ptr.raw(), val), ..old(self)@ }),
            ptr.raw() + 2 > old(self)@.sbase ==> r == ZResult::<()>::Err(Error::Fatal) && final(self)@ == old(self)@,
    {
        let sb = self.memory.static_base();
        let p = ptr.ptr();
        if p >= sb || sb - p < 2 {
            return Err(Error::Fatal);
        }
        proof {
            self.memory_wf();
        }
        self.memory.set_u16_at(val, ptr);
        proof {
            crate::memory::lemma_wf_open(self.memory);
        }
        Ok(())
    }

    /// Read the byte at `ptr`.
    pub fn read_memory_u8(&self, ptr: RawPtr) -> (r: ZResult<u8>)
        requires
            self.wf(),
        ensures
            ptr.raw() < self@.mem.len() ==> r == ZResult::<u8>::Ok(self@.mem[ptr.raw()]),
            ptr.raw() >= self@.mem.len() ==> r == ZResult::<u8>::Err(Error::Fatal),
    {
        if ptr.ptr() >= self.memory.size() {
            return Err(Error::Fatal);
        }
        Ok(self.memory.u8_at(ptr))
    }

    /// Write the byte `val` at `ptr`, which must lie in dynamic memory.
    pub fn write_memory_u8(&mut self, ptr: RawPtr, val: u8) -> (r: ZResult<()>)
        requires
            old(self).wf(),
        ensures
            final(self).wf(),
            final(self).dict_num() == old(self).dict_num(),
            final(self).dict_entry_len() == old(self).dict_entry_len(),
            final(self).dict_entries_base() == old(self).dict_entries_base(),
            ptr.raw() < old(self)@.sbase ==> r == ZResult::<()>::Ok(()) && final(self)@ == (ZView {
                mem: old(self)@.mem.update(ptr.raw(), val),
                ..old(self)@
            }),
            ptr.raw() >= old(self)@.sbase ==> r == ZResult::<()>::Err(Error::Fatal) && final(self)@
                == old(self)@,
    {
        if ptr.ptr() >= self.memory.static_base() {
            return Err(Error::Fatal);
        }
        proof {
            self.memory_wf();
        }
        self.memory.set_u8_at(val, ptr);
        proof {
            crate::memory::lemma_wf_open(self.memory);
        }
        Ok(())
    }

    /// Serialize the machine into a Quetzal save image and hand it to
    /// the host through the save-output buffer.
    pub fn save(&mut self) -> (r: ZResult<()>)
        requires
            old(self).wf(),
        ensures
            final(self).wf(),
            r.is_ok() == crate::stack::frames_chain(
                old(self)@.stack.bytes,
                old(self)@.stack.fp,
                old(self)@.stack.sp,
            ).is_some(),
            r.is_err() ==> r == ZResult::<()>::Err(Error::Fatal) && final(self)@ == old(self)@,
            r.is_ok() ==> {
                let out = final(self)@.save_out.unwrap();
                let umem = crate::quetzal::umem_chunk(old(self)@.mem, old(self)@.sbase);
                let ts = crate::stack::frames_chain(
                    old(self)@.stack.bytes,
                    old(self)@.stack.fp,
                    old(self)@.stack.sp,
                ).unwrap();
                let stks = crate::quetzal::frames_chunk_bytes(ts);
                &&& final(self)@ == with_save(old(self)@, out)
                &&& out.len() == 34 + umem.len() + stks.len()
                &&& out.subrange(0, 4) == seq![70u8, 79u8, 82u8, 77u8]
                &&& out.subrange(8, 12) == seq![73u8, 70u8, 90u8, 83u8]
                &&& out.subrange(12, 34) == crate::quetzal::ifhd_chunk(old(self)@.mem, old(self)@.pc)
                &&& out.subrange(34, 34 + umem.len() as int) == umem
                &&& out.subrange(34 + umem.len() as int, 34 + umem.len() as int + stks.len() as int)
                    == stks
            },
    {
        proof {
            self.memory_wf();
        }
        let pc = self.pc.pc().ptr();
        let bytes = crate::quetzal::Quetzal::write(&self.memory, &self.stack, pc)?;
        let ghost q = bytes@;
        self.set_save_output(bytes);
        proof {
            assert(self@ == with_save(old(self)@, q));
        }
        Ok(())
    }

    /// The memory image, for read-only work such as text decoding.
    pub fn memory(&self) -> (r: &Memory)
        requires
            self.wf(),
        ensures
            r@ == self@.mem,
            r.wf(),
            r.sbase() == self@.sbase,
            r.snapshot() == self@.snap,
    {
        proof {
            self.memory_wf();
        }
        &self.memory
    }

    /// The objects held in the current memory image, for the table rooted
    /// at the header's object-table base.
    pub open spec fn view_objs(s: ZView) -> Map<u16, crate::object_table::ObjRec> {
        crate::mm_object_table::mm_objs(word_at(s.mem, 0x0a), s.mem, s.sbase)
    }

    /// What an object-table mutation may change: the machine state with
    /// only the attribute and link fields of object records touched.
    pub open spec fn objs_frame(s0: ZView, s1: ZView) -> bool {
        &&& s1.mem.len() == s0.mem.len()
        &&& s1.sbase == s0.sbase
        &&& s1.snap == s0.snap
        &&& s1.pc == s0.pc
        &&& s1.stack == s0.stack
        &&& s1.main_out == s0.main_out
        &&& s1.status_out == s0.status_out
        &&& s1.screen_cols == s0.screen_cols
        &&& s1.save_out == s0.save_out
        &&& s1.pending_read == s0.pending_read
        &&& forall|i: int|
            0 <= i < s0.mem.len() && !crate::mm_object_table::obj_field_at(
                word_at(s0.mem, 0x0a),
                i,
            ) ==> s1.mem[i] == s0.mem[i]
    }

    /// Whether the table holds object `o`.
    pub fn has_obj(&self, o: u16) -> (r: bool)
        requires
            self.wf(),
        ensures
            r == ZMachine::view_objs(self@).contains_key(o),
    {
        let t = self.object_table();
        crate::object_table::ZObjectTable::has_object(&t, self.memory(), o)
    }

    /// The parent of object `o`.
    pub fn obj_parent(&self, o: u16) -> (r: ZResult<u16>)
        requires
            self.wf(),
        ensures
            r.is_ok() == ZMachine::view_objs(self@).contains_key(o),
            r.is_ok() ==> r.unwrap() == ZMachine::view_objs(self@)[o].parent,
            r.is_err() ==> r == ZResult::<u16>::Err(Error::Fatal),
    {
        let t = self.object_table();
        if !crate::object_table::ZObjectTable::has_object(&t, self.memory(), o) {
            return Err(Error::Fatal);
        }
        Ok(crate::object_table::ZObjectTable::parent(&t, self.memory(), o))
    }

    /// The sibling of object `o`.
    pub fn obj_sibling(&self, o: u16) -> (r: ZResult<u16>)
        requires
            self.wf(),
        ensures
            r.is_ok() == ZMachine::view_objs(self@).contains_key(o),
            r.is_ok() ==> r.unwrap() == ZMachine::view_objs(self@)[o].sibling,
            r.is_err() ==> r == ZResult::<u16>::Err(Error::Fatal),
    {
        let t = self.object_table();
        if !crate::object_table::ZObjectTable::has_object(&t, self.memory(), o) {
            return Err(Error::Fatal);
        }
        Ok(crate::object_table::ZObjectTable::sibling(&t, self.memory(), o))
    }

    /// The first child of object `o`.
    pub fn obj_child(&self, o: u16) -> (r: ZResult<u16>)
        requires
            self.wf(),
        ensures
            r.is_ok() == ZMachine::view_objs(self@).contains_key(o),
            r.is_ok() ==> r.unwrap() == ZMachine::view_objs(self@)[o].child,
            r.is_err() ==> r == ZResult::<u16>::Err(Error::Fatal),
    {
        let t = self.object_table();
        if !crate::object_table::ZObjectTable::has_object(&t, self.memory(), o) {
            return Err(Error::Fatal);
        }
        Ok(crate::object_table::ZObjectTable::child(&t, self.memory(), o))
    }

    /// The 32 attribute flags of object `o`.
    pub fn obj_attributes(&self, o: u16) -> (r: ZResult<u32>)
        requires
            self.wf(),
        ensures
            r.is_ok() == ZMachine::view_objs(self@).contains_key(o),
            r.is_ok() ==> r.unwrap() == ZMachine::view_objs(self@)[o].attributes,
            r.is_err() ==> r == ZResult::<u32>::Err(Error::Fatal),
    {
        let t = self.object_table();
        if !crate::object_table::ZObjectTable::has_object(&t, self.memory(), o) {
            return Err(Error::Fatal);
        }
        Ok(crate::object_table::ZObjectTable::attributes(&t, self.memory(), o))
    }

    /// Overwrite the attribute flags of object `o`.
    pub fn obj_set_attributes(&mut self, o: u16, attrs: u32) -> (r: ZResult<()>)
        requires
            old(self).wf(),
        ensures
            final(self).wf(),
            r.is_ok() == ZMachine::view_objs(old(self)@).contains_key(o),
            r.is_ok() ==> r == ZResult::<()>::Ok(()),
            r.is_ok() ==> ZMachine::objs_frame(old(self)@, final(self)@) && ZMachine::view_objs(
                final(self)@,
            ) == ZMachine::view_objs(old(self)@).insert(
                o,
                crate::object_table::ObjRec {
                    attributes: attrs,
                    ..ZMachine::view_objs(old(self)@)[o]
                },
            ),
            r.is_err() ==> r == ZResult::<()>::Err(Error::Fatal) && final(self)@ == old(self)@,
    {
        let t = self.object_table();
        if !crate::object_table::ZObjectTable::has_object(&t, self.memory(), o) {
            return Err(Error::Fatal);
        }
        proof {
            self.memory_wf();
        }
        let m = self.with_memory_mut();
        crate::object_table::ZObjectTable::set_attributes(&t, m, o, attrs);
        proof {
            crate::memory::lemma_wf_open(self.memory_field());
            assert(!crate::mm_object_table::obj_field_at(t.base_ptr.raw(), 0x0a));
            assert(!crate::mm_object_table::obj_field_at(t.base_ptr.raw(), 0x0b));
            assert(final(self)@.mem[0x0a] == old(self)@.mem[0x0a]);
            assert(final(self)@.mem[0x0b] == old(self)@.mem[0x0b]);
        }
        Ok(())
    }

    /// Move object `o` under parent `p`, detaching it from its old parent
    /// first: the `insert_obj` operation of the object database.
    pub fn obj_insert(&mut self, o: u16, p: u16) -> (r: ZResult<()>)
        requires
            old(self).wf(),
        ensures
            final(self).wf(),
            ZMachine::objs_frame(old(self)@, final(self)@),
            r.is_ok() == crate::object_table::insert_ok(ZMachine::view_objs(old(self)@), o, p),
            match r {
                Ok(()) => crate::object_table::insert_rel(
                    ZMachine::view_objs(old(self)@),
                    ZMachine::view_objs(final(self)@),
                    o,
                    p,
                ),
                Err(e) => e == Error::Fatal,
            },
    {
        let t = self.object_table();
        proof {
            self.memory_wf();
        }
        let m = self.with_memory_mut();
        let r = crate::object_table::ZObjectTable::insert_obj(&t, m, o, p);
        proof {
            crate::memory::lemma_wf_open(self.memory_field());
            assert(!crate::mm_object_table::obj_field_at(t.base_ptr.raw(), 0x0a));
            assert(!crate::mm_object_table::obj_field_at(t.base_ptr.raw(), 0x0b));
            assert(final(self)@.mem[0x0a] == old(self)@.mem[0x0a]);
            assert(final(self)@.mem[0x0b] == old(self)@.mem[0x0b]);
        }
        r
    }

    /// Detach object `o` from its parent: the `remove_obj` operation.
    /// Fatal when the object is missing or its links are corrupt.
    pub fn obj_remove(&mut self, o: u16) -> (r: ZResult<()>)
        requires
            old(self).wf(),
        ensures
            final(self).wf(),
            ZMachine::objs_frame(old(self)@, final(self)@),
            r.is_ok() == (ZMachine::view_objs(old(self)@).contains_key(o) && ZMachine::view_objs(
                old(self)@,
            )[o].parent != o && crate::object_table::remove_ok(
                ZMachine::view_objs(old(self)@),
                o,
            )),
            match r {
                Ok(()) => ZMachine::view_objs(old(self)@).contains_key(o) && crate::object_table::remove_rel(
                    ZMachine::view_objs(old(self)@),
                    ZMachine::view_objs(final(self)@),
                    o,
                ),
                Err(e) => e == Error::Fatal,
            },
    {
        let t = self.object_table();
        if !self.has_obj(o) {
            return Err(Error::Fatal);
        }
        let po = self.obj_parent(o)?;
        if po == o {
            return Err(Error::Fatal);
        }
        proof {
            self.memory_wf();
        }
        let m = self.with_memory_mut();
        let r = crate::object_table::ZObjectTable::remove_object_from_parent(&t, m, o);
        proof {
            crate::memory::lemma_wf_open(self.memory_field());
            assert(!crate::mm_object_table::obj_field_at(t.base_ptr.raw(), 0x0a));
            assert(!crate::mm_object_table::obj_field_at(t.base_ptr.raw(), 0x0b));
            assert(final(self)@.mem[0x0a] == old(self)@.mem[0x0a]);
            assert(final(self)@.mem[0x0b] == old(self)@.mem[0x0b]);
        }
        r
    }

    /// The property table of object `o`.
    pub fn obj_prop_table(&self, o: u16) -> (r: ZResult<
        crate::mm_object_table::MemoryMappedPropertyTable,
    >)
        requires
            self.wf(),
        ensures
            match r {
                Ok(t) => {
                    &&& ZMachine::view_objs(self@).contains_key(o)
                    &&& t.ptr.raw() == word_at(
                        self@.mem,
                        crate::mm_object_table::obj_off(word_at(self@.mem, 0x0a), o) + 7,
                    )
                    &&& t.ptr.raw() < self@.mem.len()
                    &&& t.text_len == self@.mem[t.ptr.raw()]
                },
                Err(e) => e == Error::Fatal && (!ZMachine::view_objs(self@).contains_key(o)
                    || word_at(
                    self@.mem,
                    crate::mm_object_table::obj_off(word_at(self@.mem, 0x0a), o) + 7,
                ) >= self@.mem.len()),
            },
    {
        let t = self.object_table();
        if !self.has_obj(o) {
            return Err(Error::Fatal);
        }
        proof {
            self.memory_wf();
            crate::memory::lemma_wf_bounds(self.memory_field());
        }
        let obj = t.object_with_number(o);
        obj.property_table(self.memory())
    }

    /// Write `value` into property `number` of object `o`: the low byte
    /// of a one-byte property, the full word of a two-byte one.  A
    /// missing property, any other size, or a property outside dynamic
    /// memory is fatal, and memory is then unchanged.
    pub fn put_prop(&mut self, o: u16, number: u16, value: u16) -> (r: ZResult<()>)
        requires
            old(self).wf(),
            1 <= number,
        ensures
            final(self).wf(),
            final(self)@ == (ZView { mem: final(self)@.mem, ..old(self)@ }),
            final(self)@.mem.len() == old(self)@.mem.len(),
            r.is_err() ==> r == ZResult::<()>::Err(Error::Fatal) && final(self)@.mem == old(
                self,
            )@.mem,
            ({
                let s0 = old(self)@;
                let tptr = word_at(
                    s0.mem,
                    crate::mm_object_table::obj_off(word_at(s0.mem, 0x0a), o) + 7,
                );
                if ZMachine::view_objs(s0).contains_key(o) && tptr < s0.mem.len() {
                    let start = tptr + 1 + 2 * s0.mem[tptr];
                    match crate::mm_object_table::find_prop(s0.mem, start, number) {
                        crate::mm_object_table::PropLookup::Found { size, addr } => {
                            if size == 1 && 0 <= addr && addr + 1 <= s0.sbase && addr <= 0xffff {
                                r == ZResult::<()>::Ok(()) && final(self)@.mem == s0.mem.update(
                                    addr,
                                    (value % 256) as u8,
                                )
                            } else if size == 2 && 0 <= addr && addr + 2 <= s0.sbase && addr
                                <= 0xffff {
                                r == ZResult::<()>::Ok(()) && final(self)@.mem == put_word(
                                    s0.mem,
                                    addr,
                                    value,
                                )
                            } else {
                                r == ZResult::<()>::Err(Error::Fatal)
                            }
                        },
                        _ => r == ZResult::<()>::Err(Error::Fatal),
                    }
                } else {
                    r == ZResult::<()>::Err(Error::Fatal)
                }
            }),
    {
        let t = match self.obj_prop_table(o) {
            Ok(t) => t,
            Err(e) => {
                return Err(e);
            },
        };
        proof {
            self.memory_wf();
        }
        let m = self.with_memory_mut();
        let r = t.set_property(number, value, m);
        proof {
            crate::memory::lemma_wf_open(self.memory_field());
        }
        r
    }

    /// The object table rooted at the header's object-table base.
    pub fn object_table(&self) -> (r: crate::mm_object_table::MemoryMappedObjectTable)
        requires
            self.wf(),
        ensures
            r.base_ptr.raw() == word_at(self@.mem, 0x0a),
    {
        let ptr = self.memory.property_table_ptr();
        crate::mm_object_table::MemoryMappedObjectTable::new(ptr)
    }

    /// Split the memory out for object-table mutation, and put it back.
    /// The table operations take the memory by mutable reference; this
    /// pair keeps the machine invariant around them.
    pub fn with_memory_mut(&mut self) -> (r: &mut Memory)
        requires
            old(self).wf(),
        ensures
            *r == old(self).memory_field(),
            final(self).memory_field() == *final(r),
            final(self)@ == (ZView { mem: final(r)@, snap: final(r).snapshot(), sbase: final(r).sbase(), ..old(self)@ }),
    {
        &mut self.memory
    }

    /// The memory component itself (specification-level identity).
    pub closed spec fn memory_field(&self) -> Memory {
        self.memory
    }
}

} // verus!
