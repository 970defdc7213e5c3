//! The `read` opcode's input handling: the machine records a pending
//! request for a line; when the host supplies one, the line is copied
//! into the text buffer and tokenized against the dictionary into the
//! parse buffer.

use vstd::prelude::*;

use crate::ops::{eval2_ok, eval2_step, eval2_va, eval2_vb, Operand};
use crate::ptrs::BytePtr;
use crate::result::{Error, ZResult};
use crate::text::decode_string_at;
use crate::zmachine::{ZMachine, ZView};

verus! {

/// The lexical class of an input byte.
#[derive(Clone, Copy, Debug, PartialEq, Eq, Structural)]
pub enum CharType {
    WhiteSpace,
    Separator,
    WordChar,
}

/// The class of `ch`: blank characters delimit words; a full stop or
/// comma is a one-character token of its own; all else builds words.
pub open spec fn spec_char_type(ch: u8) -> CharType {
    if ch == 32 || ch == 9 || ch == 10 || ch == 13 {
        CharType::WhiteSpace
    } else if ch == 46 || ch == 44 {
        CharType::Separator
    } else {
        CharType::WordChar
    }
}

pub fn char_type(ch: u8) -> (r: CharType)
    ensures
        r == spec_char_type(ch),
{
    if ch == 32 || ch == 9 || ch == 10 || ch == 13 {
        CharType::WhiteSpace
    } else if ch == 46 || ch == 44 {
        CharType::Separator
    } else {
        CharType::WordChar
    }
}

/// The byte lowercased, for the ASCII letters.
pub open spec fn spec_to_lower(b: u8) -> u8 {
    if 65 <= b <= 90 {
        (b + 32) as u8
    } else {
        b
    }
}

pub fn to_lower(b: u8) -> (r: u8)
    ensures
        r == spec_to_lower(b),
{
    if 65 <= b && b <= 90 {
        b + 32
    } else {
        b
    }
}

/// One token of the input line: its 1-based offset in the text buffer,
/// its length, and the first byte offset of the word in the line.
#[derive(Clone, Copy, Debug, PartialEq, Eq, Structural)]
pub struct Token {
    pub offset: u8,
    pub len: u8,
}

/// The tokens of `s`: maximal runs of word characters, and one-character
/// separator tokens; offsets are 1-based to account for the buffer's
/// length byte.  `start` is the scan position and `word` the start of the
/// current unfinished word, if any.
pub open spec fn spec_tokens(s: Seq<u8>, i: int, word: Option<int>) -> Seq<Token>
    decreases s.len() - i,
{
    if i < 0 || i >= s.len() {
        match word {
            Some(w) => seq![
                Token { offset: (w + 1) as u8, len: (i - w) as u8 },
            ],
            None => Seq::empty(),
        }
    } else {
        let c = spec_char_type(s[i]);
        match word {
            Some(w) => {
                if c == CharType::WordChar {
                    spec_tokens(s, i + 1, Some(w))
                } else if c == CharType::Separator {
                    seq![Token { offset: (w + 1) as u8, len: (i - w) as u8 }, Token {
                        offset: (i + 1) as u8,
                        len: 1,
                    }] + spec_tokens(s, i + 1, None)
                } else {
                    seq![
                        Token { offset: (w + 1) as u8, len: (i - w) as u8 },
                    ] + spec_tokens(s, i + 1, None)
                }
            },
            None => {
                if c == CharType::WordChar {
                    spec_tokens(s, i + 1, Some(i))
                } else if c == CharType::Separator {
                    seq![Token { offset: (i + 1) as u8, len: 1 }] + spec_tokens(s, i + 1, None)
                } else {
                    spec_tokens(s, i + 1, None)
                }
            },
        }
    }
}

/// Split `s` into tokens.  The line must be short enough for its offsets
/// to fit the buffer format.
pub fn tokenize(s: &Vec<u8>) -> (r: Vec<Token>)
    requires
        s@.len() <= 250,
    ensures
        r@ == spec_tokens(s@, 0, None::<int>),
{
    let mut tokens: Vec<Token> = Vec::new();
    let mut i: usize = 0;
    let mut word: Option<usize> = None;
    while i < s.len()
        invariant
            s@.len() <= 250,
            i <= s@.len(),
            (match word {
                Some(w) => w < i,
                None => true,
            }),
            spec_tokens(s@, 0, None::<int>) == tokens@ + spec_tokens(
                s@,
                i as int,
                match word {
                    Some(w) => Some(w as int),
                    None => None::<int>,
                },
            ),
        decreases s@.len() - i,
    {
        let c = char_type(s[i]);
        let ghost pre = tokens@;
        match word {
            Some(w) => {
                if matches!(c, CharType::WordChar) {
                } else if matches!(c, CharType::Separator) {
                    tokens.push(Token { offset: (w + 1) as u8, len: (i - w) as u8 });
                    tokens.push(Token { offset: (i + 1) as u8, len: 1 });
                    word = None;
                    proof {
                        assert(pre + (seq![
                            Token { offset: (w + 1) as u8, len: (i - w) as u8 },
                            Token { offset: (i + 1) as u8, len: 1u8 },
                        ] + spec_tokens(s@, i + 1, None::<int>)) =~= tokens@ + spec_tokens(
                            s@,
                            i + 1,
                            None::<int>,
                        ));
                    }
                } else {
                    tokens.push(Token { offset: (w + 1) as u8, len: (i - w) as u8 });
                    word = None;
                    proof {
                        assert(pre + (seq![
                            Token { offset: (w + 1) as u8, len: (i - w) as u8 },
                        ] + spec_tokens(s@, i + 1, None::<int>)) =~= tokens@ + spec_tokens(
                            s@,
                            i + 1,
                            None::<int>,
                        ));
                    }
                }
            },
            None => {
                if matches!(c, CharType::WordChar) {
                    word = Some(i);
                } else if matches!(c, CharType::Separator) {
                    tokens.push(Token { offset: (i + 1) as u8, len: 1 });
                    proof {
                        assert(pre + (seq![Token { offset: (i + 1) as u8, len: 1u8 }]
                            + spec_tokens(s@, i + 1, None::<int>)) =~= tokens@ + spec_tokens(
                            s@,
                            i + 1,
                            None::<int>,
                        ));
                    }
                }
            },
        }
        i = i + 1;
    }
    if let Some(w) = word {
        tokens.push(Token { offset: (w + 1) as u8, len: (s.len() - w) as u8 });
    }
    tokens
}

/// The raw address of dictionary entry `i` (1-based).
pub open spec fn dict_entry_addr(vm: &ZMachine, i: u16) -> int {
    vm.dict_entries_base() + vm.dict_entry_len() * (i - 1)
}

/// The decoded text of the dictionary entry at `addr`, if it decodes.
/// Opaque so that reasoning about the lookup loop does not unfold the
/// whole text decoder; it is revealed where an entry is actually read.
#[verifier::opaque]
pub open spec fn dict_entry_text(mem: Seq<u8>, abase: int, addr: int) -> Option<Seq<u8>> {
    crate::text::decoded_at(mem, abase, addr)
}

/// Every dictionary entry is usable: its address fits the 16-bit space
/// and its text decodes.  Under this condition a lookup cannot fail.
pub open spec fn dict_usable(vm: &ZMachine) -> bool {
    forall|j: u16|
        1 <= j <= vm.dict_num() ==> #[trigger] dict_entry_addr(vm, j) <= 0xffff && dict_entry_text(
            vm@.mem,
            crate::memory::word_at(vm@.mem, 0x18),
            dict_entry_addr(vm, j),
        ).is_some()
}

/// Look the word at `s[start .. start + len]` up in the dictionary:
/// entries are compared against the word truncated to six characters.
/// Returns the address of the first matching entry, or `None` when every
/// entry decodes to something else.
#[verifier::rlimit(100)]
pub fn lookup_in_dictionary(vm: &ZMachine, s: &Vec<u8>, start: usize, len: usize) -> (r: ZResult<
    Option<BytePtr>,
>)
    requires
        vm.wf(),
        start + len <= s@.len(),
    ensures
        dict_usable(vm) ==> r.is_ok(),
        ({
            let w = s@.subrange(
                start as int,
                start + (if len > 6 {
                    6int
                } else {
                    len as int
                }),
            );
            let abase = crate::memory::word_at(vm@.mem, 0x18);
            match r {
                Ok(Some(p)) => exists|i: u16|
                    1 <= i <= vm.dict_num() && p.raw() == #[trigger] dict_entry_addr(vm, i)
                        && dict_entry_text(vm@.mem, abase, p.raw()) == Some(w),
                Ok(None) => forall|i: u16|
                    1 <= i <= vm.dict_num() ==> (#[trigger] dict_entry_text(
                        vm@.mem,
                        abase,
                        dict_entry_addr(vm, i),
                    )).is_some() && dict_entry_text(
                        vm@.mem,
                        abase,
                        dict_entry_addr(vm, i),
                    ) != Some(w),
                Err(e) => e == Error::Fatal,
            }
        }),
{
    let truncated = if len > 6 {
        6
    } else {
        len
    };
    let slen = s.len();
    proof {
        assert(start + truncated <= slen);
    }
    let ghost w = s@.subrange(start as int, start + truncated);
    let ghost abase_g = crate::memory::word_at(vm@.mem, 0x18);
    let n = vm.num_dict_entries();
    let mut i: u16 = 0;
    while i < n
        invariant
            vm.wf(),
            i <= n,
            start + truncated <= slen,
            slen == s@.len(),
            w == s@.subrange(start as int, start + truncated),
            abase_g == crate::memory::word_at(vm@.mem, 0x18),
            n == vm.dict_num(),
            truncated == (if len > 6 {
                6int
            } else {
                len as int
            }),
            forall|j: u16|
                1 <= j <= i ==> (#[trigger] dict_entry_text(
                    vm@.mem,
                    abase_g,
                    dict_entry_addr(vm, j),
                )).is_some() && dict_entry_text(
                    vm@.mem,
                    abase_g,
                    dict_entry_addr(vm, j),
                ) != Some(w),
        decreases n - i,
    {
        let entry_number = i + 1;
        let entry_ptr = match vm.dict_entry(entry_number) {
            Ok(p) => p,
            Err(e) => {
                proof {
                    if dict_usable(vm) {
                        assert(dict_entry_addr(vm, entry_number) <= 0xffff);
                    }
                }
                return Err(Error::Fatal);
            },
        };
        let text = match decode_string_at(vm.memory(), entry_ptr.to_raw().ptr()) {
            Ok(t) => t,
            Err(e) => {
                proof {
                    if dict_usable(vm) {
                        assert(dict_entry_text(
                            vm@.mem,
                            abase_g,
                            dict_entry_addr(vm, entry_number),
                        ).is_some());
                        assert(dict_entry_text(vm@.mem, abase_g, entry_ptr.raw()).is_some()) by {
                            reveal(crate::input::dict_entry_text);
                        };
                        assert(false) by {
                            reveal(crate::input::dict_entry_text);
                        };
                    }
                }
                return Err(Error::Fatal);
            },
        };
        proof {
            assert(dict_entry_text(vm@.mem, abase_g, entry_ptr.raw()) == Some(text@)) by {
                reveal(crate::input::dict_entry_text);
            };
        }
        let mut eq = text.len() == truncated;
        if eq {
            let mut k: usize = 0;
            while k < truncated
                invariant
                    k <= truncated,
                    start + truncated <= slen,
                    slen == s@.len(),
                    text@.len() == truncated,
                    eq == (forall|m: int| 0 <= m < k ==> text@[m] == s@[start + m]),
                decreases truncated - k,
            {
                if text[k] != s[start + k] {
                    eq = false;
                }
                k = k + 1;
            }
            proof {
                if eq {
                    assert(text@ =~= w);
                } else {
                    let m = choose|m: int| 0 <= m < truncated && !(text@[m] == s@[start + m]);
                    assert(text@[m] != w[m]);
                    assert(text@ != w);
                }
            }
        } else {
            proof {
                assert(text@.len() != w.len());
            }
        }
        if eq {
            proof {
                assert(1 <= entry_number <= vm.dict_num());
                assert(entry_ptr.raw() == dict_entry_addr(vm, entry_number));
                assert(dict_entry_text(vm@.mem, abase_g, entry_ptr.raw()) == Some(w));
            }
            return Ok(Some(entry_ptr));
        }
        i = i + 1;
    }
    Ok(None)
}

/// The full effect of `read`: the text- and parse-buffer addresses are
/// evaluated and recorded as the pending input request.
pub open spec fn read_post(s0: ZView, s1: ZView, operands: Seq<Operand>, r: ZResult<()>) -> bool {
    if eval2_ok(s0, operands[0], operands[1]) {
        r == ZResult::<()>::Ok(()) && s1 == (ZView {
            pending_read: Some(
                (eval2_va(s0, operands[0]), eval2_vb(s0, operands[0], operands[1])),
            ),
            ..eval2_step(s0, operands[0], operands[1])
        })
    } else {
        r == ZResult::<()>::Err(Error::Fatal)
    }
}

/// read: evaluate the text- and parse-buffer addresses and record that
/// the machine now waits for an input line from the host.
pub fn read_0x04(vm: &mut ZMachine, operands: [Operand; 4]) -> (r: ZResult<()>)
    requires
        old(vm).wf(),
    ensures
        final(vm).wf(),
        read_post(old(vm)@, final(vm)@, operands@, r),
{
    let tbuf = operands[0].value(vm)?;
    let pbuf = operands[1].value(vm)?;
    vm.set_pending_read(tbuf, pbuf);
    Ok(())
}

/// The line as the text buffer stores it: the prefix before the first
/// newline or carriage return, lowercased.
pub open spec fn cooked_line(line: Seq<u8>) -> Seq<u8>
    decreases line.len(),
{
    if line.len() == 0 {
        Seq::empty()
    } else if line[0] == 10 || line[0] == 13 {
        Seq::empty()
    } else {
        seq![spec_to_lower(line[0])] + cooked_line(line.skip(1))
    }
}

/// `s` cut down to at most `n` elements.
pub open spec fn clipped(s: Seq<u8>, n: int) -> Seq<u8> {
    if s.len() <= n {
        s
    } else {
        s.subrange(0, n)
    }
}

/// What the dictionary field of a parse record may hold for token `tok`
/// of `buf`: 0 for a token outside the buffer or with no matching entry,
/// otherwise the address of an entry whose text is the token truncated
/// to six characters.
pub open spec fn token_addr_ok(
    vm: &ZMachine,
    buf: Seq<u8>,
    tok: Token,
    addr: u16,
) -> bool {
    let start = tok.offset - 1;
    let tlen = if tok.len > 6 {
        6int
    } else {
        tok.len as int
    };
    let abase = crate::memory::word_at(vm@.mem, 0x18);
    if !(tok.offset >= 1 && start + tok.len <= buf.len()) {
        addr == 0
    } else {
        let w = buf.subrange(start as int, start + tlen);
        if addr == 0 {
            // Either no entry matches, or — degenerately — a matching
            // entry sits at address 0 itself.
            ||| forall|j: u16|
                1 <= j <= vm.dict_num() ==> (#[trigger] dict_entry_text(
                    vm@.mem,
                    abase,
                    dict_entry_addr(vm, j),
                )).is_some() && dict_entry_text(vm@.mem, abase, dict_entry_addr(vm, j)) != Some(w)
            ||| exists|j: u16|
                1 <= j <= vm.dict_num() && 0 == #[trigger] dict_entry_addr(vm, j)
                    && dict_entry_text(vm@.mem, abase, 0) == Some(w)
        } else {
            exists|j: u16|
                1 <= j <= vm.dict_num() && addr == #[trigger] dict_entry_addr(vm, j)
                    && dict_entry_text(vm@.mem, abase, addr as int) == Some(w)
        }
    }
}

/// When completing a read is owed to succeed: a request is pending,
/// both buffers lie inside the image, the cooked line and its records
/// fit in dynamic memory and the 16-bit address space, the token count
/// fits its byte, and every dictionary entry is usable.
pub open spec fn finish_read_owed(vm: &ZMachine, line: Seq<u8>) -> bool {
    let s = vm@;
    match s.pending_read {
        None => false,
        Some((tbuf, pbuf)) => {
            if tbuf >= s.mem.len() || pbuf >= s.mem.len() {
                false
            } else {
                let cap = s.mem[tbuf as int] as int;
                let buf = clipped(cooked_line(line), if cap < 250 {
                    cap
                } else {
                    250
                });
                let toks = spec_tokens(buf, 0, None::<int>);
                let maxt = s.mem[pbuf as int] as int;
                let count = if toks.len() <= maxt {
                    toks.len() as int
                } else {
                    maxt
                };
                &&& count <= 255
                &&& tbuf + 1 + buf.len() <= 0xffff
                &&& tbuf + 2 + buf.len() <= s.sbase
                &&& pbuf + 2 + 4 * count <= 0xffff
                &&& pbuf + 2 + 4 * count <= s.sbase
                &&& dict_usable(vm)
            }
        },
    }
}

/// Complete a pending read: lowercase the line, copy it into the text
/// buffer (null-terminated, respecting the buffer's capacity byte),
/// tokenize it, and fill the parse buffer with one 4-byte record per
/// token: the dictionary entry address (or 0), the length, and the
/// 1-based offset.
#[verifier::rlimit(100)]
pub fn finish_read(vm: &mut ZMachine, line: &Vec<u8>) -> (r: ZResult<()>)
    requires
        old(vm).wf(),
    ensures
        final(vm).wf(),
        final(vm)@.pending_read == None::<(u16, u16)>,
        r.is_err() ==> r == ZResult::<()>::Err(Error::Fatal),
        finish_read_owed(old(vm), line@) ==> r.is_ok(),
        ({
            let s0 = old(vm)@;
            match s0.pending_read {
                None => r == ZResult::<()>::Err(Error::Fatal),
                Some((tbuf, pbuf)) => {
                    if tbuf >= s0.mem.len() || pbuf >= s0.mem.len() {
                        r == ZResult::<()>::Err(Error::Fatal)
                    } else {
                        let cap = s0.mem[tbuf as int] as int;
                        let buf = clipped(cooked_line(line@), if cap < 250 {
                            cap
                        } else {
                            250
                        });
                        let toks = spec_tokens(buf, 0, None::<int>);
                        let max_tokens = s0.mem[pbuf as int] as int;
                        let count = if toks.len() <= max_tokens {
                            toks.len() as int
                        } else {
                            max_tokens
                        };
                        r.is_ok() ==> {
                            let m1 = final(vm)@.mem;
                            // The parse buffer: the token count, then one
                            // 4-byte record per token, written last at
                            // mutually disjoint addresses.
                            &&& count <= 255
                            &&& m1[pbuf + 1] == count
                            &&& forall|t: int|
                                0 <= t < count ==> (#[trigger] m1[pbuf + 2 + 4 * t + 2])
                                    == toks[t].len && m1[pbuf + 2 + 4 * t + 3] == toks[t].offset
                                    && token_addr_ok(
                                    old(vm),
                                    buf,
                                    toks[t],
                                    crate::memory::word_at(m1, pbuf + 2 + 4 * t) as u16,
                                )
                            // The text buffer: the cooked line and its
                            // terminator, where the parse records did not
                            // overwrite it.
                            &&& (pbuf + 2 + 4 * count <= tbuf + 1 || tbuf + 2 + buf.len() <= pbuf
                                + 1) ==> (forall|q: int|
                                0 <= q < buf.len() ==> m1[tbuf + 1 + q] == buf[q]) && m1[tbuf + 1
                                + buf.len()] == 0
                        }
                    }
                },
            }
        }),
{
    let ghost s0 = old(vm)@;
    let ghost owed = finish_read_owed(old(vm), line@);
    let pending = vm.pending_read();
    let (tbuf_addr, pbuf_addr) = match pending {
        Some(p) => p,
        None => {
            vm.clear_pending_read();
            return Err(Error::Fatal);
        },
    };
    vm.clear_pending_read();
    let msize = vm.memory().size();
    if tbuf_addr as usize >= msize || pbuf_addr as usize >= msize {
        return Err(Error::Fatal);
    }
    // Lowercase the line up to the first line break.
    let mut buf: Vec<u8> = Vec::new();
    let mut i: usize = 0;
    let mut stopped = false;
    proof {
        assert(line@.skip(0) =~= line@);
        assert(Seq::<u8>::empty() + cooked_line(line@) =~= cooked_line(line@));
    }
    while i < line.len() && !stopped
        invariant
            i <= line@.len(),
            buf@.len() <= i,
            (if stopped || i == line@.len() {
                cooked_line(line@) == buf@
            } else {
                cooked_line(line@) == buf@ + cooked_line(line@.skip(i as int))
            }),
        decreases line@.len() - i + (if stopped {
            0int
        } else {
            1
        }),
    {
        let b = line[i];
        proof {
            assert(line@.skip(i as int)[0] == b);
            assert(line@.skip(i as int).skip(1) =~= line@.skip(i + 1));
        }
        if b == 10 || b == 13 {
            stopped = true;
        } else {
            buf.push(to_lower(b));
            i = i + 1;
            proof {
                if i < line@.len() {
                    assert((buf@.drop_last() + seq![spec_to_lower(b)]) + cooked_line(
                        line@.skip(i as int),
                    ) =~= buf@ + cooked_line(line@.skip(i as int)));
                } else {
                    assert(line@.skip(line@.len() as int) =~= Seq::<u8>::empty());
                    assert(buf@.drop_last() + (seq![spec_to_lower(b)] + Seq::<u8>::empty())
                        =~= buf@);
                }
            }
        }
    }
    proof {
        if !stopped && i == line@.len() {
            assert(line@.skip(line@.len() as int) =~= Seq::<u8>::empty());
            assert(buf@ + Seq::<u8>::empty() =~= buf@);
        }
    }
    // Respect the text buffer's capacity byte, and the format's own
    // bound on offsets.
    let cap = vm.read_memory_u8(BytePtr::new(tbuf_addr).to_raw())? as usize;
    let limit = if cap < 250 {
        cap
    } else {
        250
    };
    if buf.len() > limit {
        buf.truncate(limit);
    }
    let ghost cooked = buf@;
    // Tokenize, and resolve every token against the dictionary before
    // any memory is written.
    let tokens = tokenize(&buf);
    let max_tokens = vm.read_memory_u8(BytePtr::new(pbuf_addr).to_raw())? as usize;
    let count = if tokens.len() > max_tokens {
        max_tokens
    } else {
        tokens.len()
    };
    if count > 255 {
        return Err(Error::Fatal);
    }
    let mut addrs: Vec<u16> = Vec::new();
    let mut t: usize = 0;
    while t < count
        invariant
            s0 == old(vm)@,
            vm.wf(),
            vm@ == (crate::zmachine::ZView { pending_read: None::<(u16, u16)>, ..s0 }),
            t <= count,
            count <= tokens@.len(),
            addrs@.len() == t,
            cooked == buf@,
            vm.dict_num() == old(vm).dict_num(),
            vm.dict_entry_len() == old(vm).dict_entry_len(),
            vm.dict_entries_base() == old(vm).dict_entries_base(),
            owed == finish_read_owed(old(vm), line@),
            owed ==> dict_usable(old(vm)),
            forall|q: int|
                0 <= q < t ==> token_addr_ok(old(vm), buf@, tokens@[q], #[trigger] addrs@[q]),
        decreases count - t,
    {
        let token = tokens[t];
        let ghost tok = tokens@[t as int];
        let ghost tlen_g: int = if tok.len > 6 {
            6
        } else {
            tok.len as int
        };
        let ghost abase = crate::memory::word_at(vm@.mem, 0x18);
        proof {
            assert forall|j: u16| #[trigger] dict_entry_addr(old(vm), j) == dict_entry_addr(
                vm,
                j,
            ) by {};
            assert(old(vm)@.mem == vm@.mem);
            if dict_usable(old(vm)) {
                assert forall|j: u16|
                    1 <= j <= vm.dict_num() implies #[trigger] dict_entry_addr(vm, j) <= 0xffff
                    && dict_entry_text(
                    vm@.mem,
                    crate::memory::word_at(vm@.mem, 0x18),
                    dict_entry_addr(vm, j),
                ).is_some() by {
                    assert(dict_entry_addr(old(vm), j) == dict_entry_addr(vm, j));
                    assert(dict_entry_addr(old(vm), j) <= 0xffff && dict_entry_text(
                        old(vm)@.mem,
                        crate::memory::word_at(old(vm)@.mem, 0x18),
                        dict_entry_addr(old(vm), j),
                    ).is_some());
                };
                assert(dict_usable(vm));
            }
        }
        let offset = token.offset as usize;
        let tlen = token.len as usize;
        let addr_val: u16 = if offset >= 1 && offset - 1 + tlen <= buf.len() {
            let ghost w = buf@.subrange(tok.offset - 1, tok.offset - 1 + tlen_g);
            match lookup_in_dictionary(vm, &buf, offset - 1, tlen)? {
                Some(ptr) => {
                    let a = ptr.to_raw().ptr() as u16;
                    proof {
                        let jw = choose|j: u16|
                            1 <= j <= vm.dict_num() && ptr.raw() == #[trigger] dict_entry_addr(
                                vm,
                                j,
                            ) && dict_entry_text(vm@.mem, abase, ptr.raw()) == Some(w);
                        assert(dict_entry_addr(old(vm), jw) == dict_entry_addr(vm, jw));
                        assert(a as int == ptr.raw());
                        assert(token_addr_ok(old(vm), buf@, tok, a));
                    }
                    a
                },
                None => {
                    proof {
                        assert forall|j: u16|
                            1 <= j <= old(vm).dict_num() implies (#[trigger] dict_entry_text(
                            old(vm)@.mem,
                            abase,
                            dict_entry_addr(old(vm), j),
                        )).is_some() && dict_entry_text(
                            old(vm)@.mem,
                            abase,
                            dict_entry_addr(old(vm), j),
                        ) != Some(w) by {
                            assert(dict_entry_addr(old(vm), j) == dict_entry_addr(vm, j));
                            assert((#[trigger] dict_entry_text(
                                vm@.mem,
                                abase,
                                dict_entry_addr(vm, j),
                            )).is_some());
                        };
                        assert(token_addr_ok(old(vm), buf@, tok, 0));
                    }
                    0
                },
            }
        } else {
            proof {
                assert(token_addr_ok(old(vm), buf@, tok, 0));
            }
            0
        };
        proof {
            assert(token_addr_ok(old(vm), buf@, tokens@[t as int], addr_val));
        }
        addrs.push(addr_val);
        t = t + 1;
    }
    // Copy the cooked line into the text buffer, null-terminated.
    let mut p: usize = 0;
    while p < buf.len()
        invariant
            s0 == old(vm)@,
            vm.wf(),
            p <= buf@.len(),
            buf@.len() <= 250,
            owed == finish_read_owed(old(vm), line@),
            owed ==> tbuf_addr + 1 + buf@.len() <= 0xffff && tbuf_addr + 2 + buf@.len()
                <= s0.sbase,
            cooked == buf@,
            vm@.pending_read == None::<(u16, u16)>,
            vm@ == (crate::zmachine::ZView { mem: vm@.mem, pending_read: None::<(u16, u16)>, ..s0 }),
            vm@.mem.len() == s0.mem.len(),
            forall|q: int| 0 <= q < p ==> vm@.mem[tbuf_addr + 1 + q] == buf@[q],
            forall|q: int|
                0 <= q < s0.mem.len() && !(tbuf_addr + 1 <= q < tbuf_addr + 1 + p) ==> vm@.mem[q]
                    == s0.mem[q],
        decreases buf@.len() - p,
    {
        if tbuf_addr as usize + 1 + p > 0xffff {
            return Err(Error::Fatal);
        }
        let b = buf[p];
        vm.write_memory_u8(crate::ptrs::RawPtr::new(tbuf_addr as usize + 1 + p), b)?;
        p = p + 1;
    }
    if tbuf_addr as usize + 1 + buf.len() > 0xffff {
        return Err(Error::Fatal);
    }
    vm.write_memory_u8(crate::ptrs::RawPtr::new(tbuf_addr as usize + 1 + buf.len()), 0)?;
    let ghost m_text = vm@.mem;
    // Write the parse buffer: the count, then the records.
    if pbuf_addr as usize + 1 > 0xffff {
        return Err(Error::Fatal);
    }
    vm.write_memory_u8(crate::ptrs::RawPtr::new(pbuf_addr as usize + 1), count as u8)?;
    let ghost m_count = vm@.mem;
    let mut w: usize = 0;
    while w < count
        invariant
            s0 == old(vm)@,
            vm.wf(),
            w <= count,
            count <= tokens@.len(),
            count <= 255,
            owed == finish_read_owed(old(vm), line@),
            owed ==> pbuf_addr + 2 + 4 * count <= 0xffff && pbuf_addr + 2 + 4 * count
                <= s0.sbase,
            addrs@.len() == count,
            cooked == buf@,
            vm@ == (crate::zmachine::ZView { mem: vm@.mem, pending_read: None::<(u16, u16)>, ..s0 }),
            vm@.mem.len() == m_count.len(),
            forall|q: int|
                0 <= q < m_count.len() && !(pbuf_addr + 2 <= q < pbuf_addr + 2 + 4 * w)
                    ==> vm@.mem[q] == m_count[q],
            forall|q: int|
                0 <= q < w ==> crate::memory::word_at(vm@.mem, pbuf_addr + 2 + 4 * q)
                    == #[trigger] addrs@[q] && vm@.mem[pbuf_addr + 2 + 4 * q + 2]
                    == tokens@[q].len && vm@.mem[pbuf_addr + 2 + 4 * q + 3] == tokens@[q].offset,
        decreases count - w,
    {
        let ghost prev = vm@.mem;
        let token = tokens[w];
        let addr_val = addrs[w];
        let rec = pbuf_addr as usize + 2 + 4 * w;
        if rec + 4 > 0xffff {
            return Err(Error::Fatal);
        }
        vm.write_memory(crate::ptrs::RawPtr::new(rec), addr_val)?;
        vm.write_memory_u8(crate::ptrs::RawPtr::new(rec + 2), token.len)?;
        vm.write_memory_u8(crate::ptrs::RawPtr::new(rec + 3), token.offset)?;
        proof {
            assert forall|q: int|
                0 <= q < w + 1 implies crate::memory::word_at(vm@.mem, pbuf_addr + 2 + 4 * q)
                == #[trigger] addrs@[q] && vm@.mem[pbuf_addr + 2 + 4 * q + 2] == tokens@[q].len
                && vm@.mem[pbuf_addr + 2 + 4 * q + 3] == tokens@[q].offset by {
                if q < w {
                    assert(crate::memory::word_at(prev, pbuf_addr + 2 + 4 * q) == addrs@[q]);
                }
            };
        }
        w = w + 1;
    }
    proof {
        let tb = tbuf_addr as int;
        let pb = pbuf_addr as int;
        let cap_g = s0.mem[tb] as int;
        let lim: int = if cap_g < 250 {
            cap_g
        } else {
            250
        };
        assert(buf@ == clipped(cooked_line(line@), lim));
        let toks = spec_tokens(buf@, 0, None::<int>);
        assert(tokens@ == toks);
        let maxt = s0.mem[pb] as int;
        let cnt: int = if toks.len() <= maxt {
            toks.len() as int
        } else {
            maxt
        };
        assert(count == cnt);
        assert(crate::memory::spec_static_base(vm@.snap) <= vm@.snap.len());
        assert(0 <= pb + 1 < m_count.len());
        assert(m_count[pb + 1] == count as u8);
        assert(vm@.mem[pb + 1] == m_count[pb + 1]);
        assert(vm@.mem[pb + 1] == count);
        assert forall|t2: int|
            0 <= t2 < count implies (#[trigger] vm@.mem[pb + 2 + 4 * t2 + 2]) == tokens@[t2].len
                && vm@.mem[pb + 2 + 4 * t2 + 3] == tokens@[t2].offset && token_addr_ok(
                old(vm),
                buf@,
                tokens@[t2],
                crate::memory::word_at(vm@.mem, pb + 2 + 4 * t2) as u16,
            ) by {
            assert(crate::memory::word_at(vm@.mem, pb + 2 + 4 * t2) == addrs@[t2]);
            assert(token_addr_ok(old(vm), buf@, tokens@[t2], addrs@[t2]));
        };
        if pb + 2 + 4 * count <= tb + 1 || tb + 2 + buf@.len() <= pb + 1 {
            assert forall|q: int| 0 <= q < buf@.len() implies vm@.mem[tb + 1 + q] == buf@[q] by {
                assert(m_text[tb + 1 + q] == buf@[q]);
                assert(m_count[tb + 1 + q] == m_text[tb + 1 + q]);
            };
            assert(m_count[tb + 1 + buf@.len()] == m_text[tb + 1 + buf@.len()]);
            assert(vm@.mem[tb + 1 + buf@.len()] == 0);
        }
    }
    Ok(())
}

} // verus!
