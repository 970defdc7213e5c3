//! The ZSCII text decoder.  Story text is a sequence of 16-bit words, each
//! packing three 5-bit Z-characters; the top bit of the last word is set.
//! Z-characters 6..31 index one of three alphabet rows (lowercase,
//! uppercase, punctuation); 0 is a space; 1..3 indirect through the
//! abbreviations table; 4 and 5 shift rows for one character; in the
//! punctuation row, 6 begins a two-character 10-bit escape.

use vstd::prelude::*;

use crate::memory::{word_at, Memory};
use crate::ops::Operand;
use crate::ptrs::BytePtr;
use crate::result::{Error, ZResult};
use crate::zmachine::ZMachine;

verus! {

/// The character of alphabet row `row` (0, 1 or 2) selected by
/// Z-character `c` (6..31), as a byte.
pub open spec fn alphabet(row: int, c: int) -> u8 {
    let i = c - 6;
    if row == 0 {
        (97 + i) as u8  // a..z
    } else if row == 1 {
        (65 + i) as u8  // A..Z
    } else {
        if i == 0 {
            64  // @ (unused slot)
        } else if i == 1 {
            10  // newline
        } else if i <= 11 {
            (48 + (i - 2)) as u8  // 0..9
        } else if i == 12 {
            46  // .
        } else if i == 13 {
            44  // ,
        } else if i == 14 {
            33  // !
        } else if i == 15 {
            63  // ?
        } else if i == 16 {
            95  // _
        } else if i == 17 {
            35  // #
        } else if i == 18 {
            39  // '
        } else if i == 19 {
            34  // "
        } else if i == 20 {
            47  // /
        } else if i == 21 {
            92  // backslash
        } else if i == 22 {
            45  // -
        } else if i == 23 {
            58  // :
        } else if i == 24 {
            40  // (
        } else {
            41  // )
        }
    }
}

/// The three 5-bit Z-characters packed in each word, in order.
pub open spec fn zchars_of_words(ws: Seq<u16>) -> Seq<u16>
    decreases ws.len(),
{
    if ws.len() == 0 {
        Seq::empty()
    } else {
        let w = ws[0] as int;
        seq![((w / 1024) % 32) as u16, ((w / 32) % 32) as u16, (w % 32) as u16] + zchars_of_words(
            ws.skip(1),
        )
    }
}

/// The words of the string starting at offset `p`: words are read until
/// one with the stop bit set; running off the end of memory is a
/// malformed string.
pub open spec fn zwords_at(m: Seq<u8>, p: int) -> Option<Seq<u16>>
    decreases m.len() - p,
{
    if p < 0 || p + 2 > m.len() {
        None
    } else {
        let w = word_at(m, p) as u16;
        if w >= 0x8000 {
            Some(seq![w])
        } else {
            match zwords_at(m, p + 2) {
                None => None,
                Some(rest) => Some(seq![w] + rest),
            }
        }
    }
}

/// The decoder mode: 0 — normal, reading from row `row`; 1 — first half
/// of a 10-bit escape; 2 — second half, with the first five bits in
/// `acc`; 3 — the next character selects an entry of abbreviation table
/// `acc`.
pub open spec fn decode_chars(
    m: Seq<u8>,
    abase: int,
    cs: Seq<u16>,
    mode: int,
    acc: int,
    row: int,
    in_abbrev: bool,
) -> Option<Seq<u8>>
    decreases (if in_abbrev { 0int } else { 1int }), cs.len(),
{
    if cs.len() == 0 {
        Some(Seq::empty())
    } else {
        let c = cs[0] as int;
        let rest = cs.skip(1);
        if mode == 1 {
            decode_chars(m, abase, rest, 2, c * 32, 0, in_abbrev)
        } else if mode == 2 {
            match decode_chars(m, abase, rest, 0, 0, 0, in_abbrev) {
                None => None,
                Some(s) => Some(seq![((acc + c) % 256) as u8] + s),
            }
        } else if mode == 3 {
            if in_abbrev {
                None
            } else {
                let entry = abase + 2 * (32 * (acc - 1) + c);
                if entry < 0 || entry + 2 > m.len() {
                    None
                } else {
                    let addr = 2 * word_at(m, entry);
                    match zwords_at(m, addr) {
                        None => None,
                        Some(ws) => match decode_chars(
                            m,
                            abase,
                            zchars_of_words(ws),
                            0,
                            0,
                            0,
                            true,
                        ) {
                            None => None,
                            Some(abbrev) => match decode_chars(
                                m,
                                abase,
                                rest,
                                0,
                                0,
                                0,
                                in_abbrev,
                            ) {
                                None => None,
                                Some(s) => Some(abbrev + s),
                            },
                        },
                    }
                }
            }
        } else {
            // normal mode, current row `row`
            if row == 2 && c == 6 {
                decode_chars(m, abase, rest, 1, 0, 0, in_abbrev)
            } else if c == 0 {
                match decode_chars(m, abase, rest, 0, 0, 0, in_abbrev) {
                    None => None,
                    Some(s) => Some(seq![32u8] + s),
                }
            } else if 1 <= c <= 3 {
                if in_abbrev {
                    None
                } else {
                    decode_chars(m, abase, rest, 3, c, 0, in_abbrev)
                }
            } else if c == 4 {
                decode_chars(m, abase, rest, 0, 0, 1, in_abbrev)
            } else if c == 5 {
                decode_chars(m, abase, rest, 0, 0, 2, in_abbrev)
            } else {
                match decode_chars(m, abase, rest, 0, 0, 0, in_abbrev) {
                    None => None,
                    Some(s) => Some(seq![alphabet(row, c)] + s),
                }
            }
        }
    }
}

/// The decoded string at offset `p` of memory `m`, with the abbreviations
/// table at `abase`; `None` when the string is malformed.
pub open spec fn decoded_at(m: Seq<u8>, abase: int, p: int) -> Option<Seq<u8>> {
    match zwords_at(m, p) {
        None => None,
        Some(ws) => decode_chars(m, abase, zchars_of_words(ws), 0, 0, 0, false),
    }
}

/// Read the words of the string at `start`, up to and including the one
/// with the stop bit.
pub fn read_zwords(memory: &Memory, start: usize) -> (r: ZResult<Vec<u16>>)
    ensures
        match zwords_at(memory@, start as int) {
            Some(ws) => r.is_ok() && r.unwrap()@ == ws,
            None => r == ZResult::<Vec<u16>>::Err(Error::Fatal),
        },
{
    let len = memory.size();
    if start > len {
        return Err(Error::Fatal);
    }
    let mut words: Vec<u16> = Vec::new();
    let mut p = start;
    loop
        invariant
            len == memory@.len(),
            start <= p <= len,
            (match zwords_at(memory@, start as int) {
                Some(ws) => zwords_at(memory@, p as int).is_some() && ws == words@ + zwords_at(
                    memory@,
                    p as int,
                ).unwrap(),
                None => zwords_at(memory@, p as int).is_none(),
            }),
        decreases len - p,
    {
        if len - p < 2 {
            return Err(Error::Fatal);
        }
        let w = memory.u16_at_index(p);
        let ghost pre_words = words@;
        words.push(w);
        if w >= 0x8000 {
            proof {
                if zwords_at(memory@, start as int).is_some() {
                    assert(zwords_at(memory@, p as int).unwrap() =~= seq![w]);
                    assert(pre_words + seq![w] =~= words@);
                }
            }
            return Ok(words);
        }
        proof {
            if zwords_at(memory@, start as int).is_some() {
                let tail = zwords_at(memory@, p as int).unwrap();
                assert(tail =~= seq![w] + zwords_at(memory@, p + 2).unwrap());
                assert(pre_words + tail =~= words@ + zwords_at(memory@, p + 2).unwrap());
            }
        }
        p = p + 2;
    }
}

/// Unpack each word of `ws` into its three Z-characters.
pub fn split_zchars(ws: &Vec<u16>) -> (r: Vec<u16>)
    ensures
        r@ == zchars_of_words(ws@),
{
    let mut cs: Vec<u16> = Vec::new();
    let mut i: usize = 0;
    proof {
        assert(ws@.skip(0) =~= ws@);
    }
    while i < ws.len()
        invariant
            i <= ws@.len(),
            zchars_of_words(ws@) == cs@ + zchars_of_words(ws@.skip(i as int)),
        decreases ws@.len() - i,
    {
        let w = ws[i];
        proof {
            assert(ws@.skip(i as int)[0] == w);
            assert(ws@.skip(i as int).skip(1) =~= ws@.skip(i + 1));
        }
        cs.push(w / 1024 % 32);
        cs.push(w / 32 % 32);
        cs.push(w % 32);
        i = i + 1;
        proof {
            assert(zchars_of_words(ws@) =~= cs@ + zchars_of_words(ws@.skip(i as int)));
        }
    }
    proof {
        assert(zchars_of_words(ws@.skip(ws@.len() as int)) =~= Seq::<u16>::empty());
        assert(zchars_of_words(ws@) =~= cs@);
    }
    cs
}

/// The character for Z-character `c` of row `row` (both in range).
fn alphabet_char(row: u8, c: u16) -> (r: u8)
    requires
        row < 3,
        6 <= c < 32,
    ensures
        r == alphabet(row as int, c as int),
{
    let i = (c - 6) as u8;
    if row == 0 {
        97 + i
    } else if row == 1 {
        65 + i
    } else {
        if i == 0 {
            64
        } else if i == 1 {
            10
        } else if i <= 11 {
            48 + (i - 2)
        } else if i == 12 {
            46
        } else if i == 13 {
            44
        } else if i == 14 {
            33
        } else if i == 15 {
            63
        } else if i == 16 {
            95
        } else if i == 17 {
            35
        } else if i == 18 {
            39
        } else if i == 19 {
            34
        } else if i == 20 {
            47
        } else if i == 21 {
            92
        } else if i == 22 {
            45
        } else if i == 23 {
            58
        } else if i == 24 {
            40
        } else {
            41
        }
    }
}

/// Decode a sequence of Z-characters against `memory`, expanding
/// abbreviations through the table at `abase` unless this call is itself
/// decoding an abbreviation (abbreviations must not nest).
pub fn decode_zchars(memory: &Memory, abase: usize, cs: &Vec<u16>, in_abbrev: bool) -> (r: ZResult<
    Vec<u8>,
>)
    requires
        abase <= 0x10000,
        forall|i: int| 0 <= i < cs@.len() ==> #[trigger] cs@[i] < 32,
    ensures
        match decode_chars(memory@, abase as int, cs@, 0, 0, 0, in_abbrev) {
            Some(s) => r.is_ok() && r.unwrap()@ == s,
            None => r == ZResult::<Vec<u8>>::Err(Error::Fatal),
        },
    decreases (if in_abbrev { 0int } else { 1int }),
{
    let len = memory.size();
    let mut out: Vec<u8> = Vec::new();
    let mut i: usize = 0;
    let mut mode: u8 = 0;
    let mut acc: u16 = 0;
    let mut row: u8 = 0;
    proof {
        assert(cs@.skip(0) =~= cs@);
        if let Some(s) = decode_chars(memory@, abase as int, cs@, 0, 0, 0, in_abbrev) {
            assert(Seq::<u8>::empty() + s =~= s);
        }
    }
    while i < cs.len()
        invariant
            len == memory@.len(),
            abase <= 0x10000,
            i <= cs@.len(),
            mode <= 3,
            row < 3,
            mode == 0 ==> acc == 0,
            mode == 1 ==> acc == 0,
            mode == 2 ==> acc % 32 == 0 && acc < 1024,
            mode == 3 ==> 1 <= acc <= 3,
            mode != 0 ==> row == 0,
            forall|j: int| 0 <= j < cs@.len() ==> #[trigger] cs@[j] < 32,
            (match decode_chars(memory@, abase as int, cs@, 0, 0, 0, in_abbrev) {
                Some(s) => decode_chars(
                    memory@,
                    abase as int,
                    cs@.skip(i as int),
                    mode as int,
                    acc as int,
                    row as int,
                    in_abbrev,
                ).is_some() && s == out@ + decode_chars(
                    memory@,
                    abase as int,
                    cs@.skip(i as int),
                    mode as int,
                    acc as int,
                    row as int,
                    in_abbrev,
                ).unwrap(),
                None => decode_chars(
                    memory@,
                    abase as int,
                    cs@.skip(i as int),
                    mode as int,
                    acc as int,
                    row as int,
                    in_abbrev,
                ).is_none(),
            }),
        decreases cs@.len() - i,
    {
        let c = cs[i];
        let ghost rem = cs@.skip(i as int);
        let ghost out0 = out@;
        proof {
            assert(rem[0] == c);
            assert(rem.skip(1) =~= cs@.skip(i + 1));
        }
        if mode == 1 {
            acc = c * 32;
            mode = 2;
        } else if mode == 2 {
            out.push(((acc + c) % 256) as u8);
            proof {
                if let Some(s1) = decode_chars(memory@, abase as int, rem.skip(1), 0, 0, 0, in_abbrev) {
                    assert(out@ =~= out0 + seq![((acc + c) % 256) as u8]);
                    assert((out0 + seq![((acc + c) % 256) as u8]) + s1 =~= out0 + (seq![((acc + c)
                        % 256) as u8] + s1));
                }
            }
            mode = 0;
            acc = 0;
        } else if mode == 3 {
            if in_abbrev {
                return Err(Error::Fatal);
            }
            assert(c < 32);
            assert(1 <= acc <= 3);
            let entry = abase + 2 * (32 * (acc as usize - 1) + c as usize);
            if entry + 2 > len {
                return Err(Error::Fatal);
            }
            let waddr = memory.u16_at_index(entry);
            let addr = 2 * waddr as usize;
            let ws = read_zwords(memory, addr)?;
            let acs = split_zchars(&ws);
            proof {
                lemma_zchars_bounded(ws@);
            }
            let abbrev = decode_zchars(memory, abase, &acs, true)?;
            let mut k: usize = 0;
            let ghost out_before = out@;
            while k < abbrev.len()
                invariant
                    k <= abbrev@.len(),
                    out@ == out_before + abbrev@.subrange(0, k as int),
                decreases abbrev@.len() - k,
            {
                let b = abbrev[k];
                out.push(b);
                k = k + 1;
                proof {
                    assert(out@ =~= out_before + abbrev@.subrange(0, k as int));
                }
            }
            proof {
                assert(abbrev@.subrange(0, abbrev@.len() as int) =~= abbrev@);
                assert(out@ =~= out0 + abbrev@);
                if let Some(s1) = decode_chars(memory@, abase as int, rem.skip(1), 0, 0, 0, in_abbrev) {
                    assert((out0 + abbrev@) + s1 =~= out0 + (abbrev@ + s1));
                }
            }
            mode = 0;
            acc = 0;
        } else {
            if row == 2 && c == 6 {
                mode = 1;
                row = 0;
            } else if c == 0 {
                out.push(32);
                proof {
                    if let Some(s1) = decode_chars(memory@, abase as int, rem.skip(1), 0, 0, 0, in_abbrev) {
                        assert(out@ =~= out0 + seq![32u8]);
                        assert((out0 + seq![32u8]) + s1 =~= out0 + (seq![32u8] + s1));
                    }
                }
                row = 0;
            } else if c <= 3 {
                if in_abbrev {
                    return Err(Error::Fatal);
                }
                mode = 3;
                acc = c;
                row = 0;
            } else if c == 4 {
                row = 1;
            } else if c == 5 {
                row = 2;
            } else {
                let b = alphabet_char(row, c);
                out.push(b);
                proof {
                    if let Some(s1) = decode_chars(memory@, abase as int, rem.skip(1), 0, 0, 0, in_abbrev) {
                        assert(out@ =~= out0 + seq![b]);
                        assert((out0 + seq![b]) + s1 =~= out0 + (seq![b] + s1));
                    }
                }
                row = 0;
            }
        }
        i = i + 1;
    }
    proof {
        assert(cs@.skip(cs@.len() as int) =~= Seq::<u16>::empty());
    }
    Ok(out)
}

/// Every Z-character a word unpacks to is below 32.
proof fn lemma_zchars_bounded(ws: Seq<u16>)
    ensures
        forall|i: int| 0 <= i < zchars_of_words(ws).len() ==> #[trigger] zchars_of_words(ws)[i]
            < 32,
    decreases ws.len(),
{
    if ws.len() > 0 {
        lemma_zchars_bounded(ws.skip(1));
        assert forall|i: int|
            0 <= i < zchars_of_words(ws).len() implies #[trigger] zchars_of_words(ws)[i] < 32 by {
            if i >= 3 {
                assert(zchars_of_words(ws)[i] == zchars_of_words(ws.skip(1))[i - 3]);
            }
        };
    }
}


/// The decimal digits of a non-negative integer, most significant first;
/// empty for 0.
pub open spec fn dec_digits(n: int) -> Seq<u8>
    decreases n,
{
    if n <= 0 {
        Seq::empty()
    } else {
        dec_digits(n / 10).push((48 + n % 10) as u8)
    }
}

/// The decimal rendering of an integer, with a leading minus sign for
/// negative values.
pub open spec fn dec_str(v: int) -> Seq<u8> {
    if v == 0 {
        seq![48u8]
    } else if v < 0 {
        seq![45u8] + dec_digits(-v)
    } else {
        dec_digits(v)
    }
}

/// Append the decimal digits of `n`.
fn push_dec_digits(n: u16, out: &mut Vec<u8>)
    ensures
        final(out)@ == old(out)@ + dec_digits(n as int),
    decreases n,
{
    if n == 0 {
        proof {
            assert(old(out)@ + dec_digits(0) =~= old(out)@);
        }
        return ;
    }
    push_dec_digits(n / 10, out);
    out.push(48 + (n % 10) as u8);
    proof {
        assert(old(out)@ + dec_digits(n as int) =~= (old(out)@ + dec_digits(n as int / 10)).push(
            (48 + n as int % 10) as u8,
        ));
    }
}

/// The decimal rendering of a word read as a signed value.
pub fn signed_dec(v: u16) -> (r: Vec<u8>)
    ensures
        r@ == dec_str(crate::ops::to_signed(v)),
{
    let mut out: Vec<u8> = Vec::new();
    if v == 0 {
        out.push(48);
        proof {
            assert(out@ =~= dec_str(0));
        }
        return out;
    }
    if v >= 0x8000 {
        out.push(45);
        let magnitude = (0x10000u32 - v as u32) as u16;
        push_dec_digits(magnitude, &mut out);
        proof {
            assert(seq![45u8] + dec_digits(magnitude as int) =~= out@);
        }
    } else {
        push_dec_digits(v, &mut out);
        proof {
            assert(Seq::<u8>::empty() + dec_digits(v as int) =~= out@);
        }
    }
    out
}

/// A well-formed string lies within memory: its words all fit.
pub proof fn lemma_zwords_extent(m: Seq<u8>, p: int)
    requires
        zwords_at(m, p).is_some(),
    ensures
        p + 2 * zwords_at(m, p).unwrap().len() <= m.len(),
        zwords_at(m, p).unwrap().len() >= 1,
    decreases m.len() - p,
{
    let w = word_at(m, p);
    if w >= 0x8000 {
    } else {
        lemma_zwords_extent(m, p + 2);
    }
}

/// Decode the string at raw offset `addr`, expanding abbreviations.
pub fn decode_string_at(memory: &Memory, addr: usize) -> (r: ZResult<Vec<u8>>)
    requires
        memory@.len() >= 64,
    ensures
        match decoded_at(memory@, word_at(memory@, 0x18), addr as int) {
            Some(s) => r.is_ok() && r.unwrap()@ == s,
            None => r == ZResult::<Vec<u8>>::Err(Error::Fatal),
        },
{
    let abase = memory.abbrev_table_ptr().to_raw().ptr();
    let ws = read_zwords(memory, addr)?;
    let cs = split_zchars(&ws);
    proof {
        lemma_zchars_bounded(ws@);
    }
    decode_zchars(memory, abase, &cs, false)
}

/// Decode the string at `ptr` against the machine's memory.
pub fn decode_at(vm: &ZMachine, ptr: BytePtr) -> (r: ZResult<Vec<u8>>)
    requires
        vm.wf(),
    ensures
        match decoded_at(vm@.mem, word_at(vm@.mem, 0x18), ptr.raw()) {
            Some(s) => r.is_ok() && r.unwrap()@ == s,
            None => r == ZResult::<Vec<u8>>::Err(Error::Fatal),
        },
{
    decode_string_at(vm.memory(), ptr.to_raw().ptr())
}

/// The full effect of `print`: the inline string at the PC is decoded,
/// the PC advances past its words, and the text goes to the main window.
pub open spec fn print_post(s0: crate::zmachine::ZView, s1: crate::zmachine::ZView, r: ZResult<
    (),
>) -> bool {
    match decoded_at(s0.mem, word_at(s0.mem, 0x18), s0.pc) {
        Some(s) => r == ZResult::<()>::Ok(()) && s1 == (crate::zmachine::ZView {
            pc: s0.pc + 2 * zwords_at(s0.mem, s0.pc).unwrap().len(),
            main_out: s0.main_out + s,
            ..s0
        }),
        None => r == ZResult::<()>::Err(Error::Fatal),
    }
}

/// print: decode the inline string at the PC, advance the PC past it,
/// and write it to the main window.
pub fn print_0x02(vm: &mut ZMachine) -> (r: ZResult<()>)
    requires
        old(vm).wf(),
    ensures
        final(vm).wf(),
        print_post(old(vm)@, final(vm)@, r),
{
    let here = vm.current_pc();
    let ws = read_zwords(vm.memory(), here)?;
    let cs = split_zchars(&ws);
    proof {
        lemma_zchars_bounded(ws@);
        lemma_zwords_extent(vm@.mem, here as int);
    }
    let abase = vm.memory().abbrev_table_ptr().to_raw().ptr();
    let text = decode_zchars(vm.memory(), abase, &cs, false)?;
    let n = ws.len();
    let msize = vm.memory().size();
    proof {
        assert(here + 2 * n <= msize);
    }
    let target = here + 2 * n;
    vm.set_current_pc(target)?;
    vm.write_main_window(&text);
    Ok(())
}

/// The full effect of `print_ret`: the inline string and a newline go to
/// the main window, the PC moves past the string, and 1 is returned from
/// the current routine.
pub open spec fn print_ret_post(
    s0: crate::zmachine::ZView,
    s1: crate::zmachine::ZView,
    r: ZResult<()>,
) -> bool {
    match decoded_at(s0.mem, word_at(s0.mem, 0x18), s0.pc) {
        None => r == ZResult::<()>::Err(Error::Fatal),
        Some(s) => {
            let sp = crate::zmachine::ZView {
                pc: s0.pc + 2 * zwords_at(s0.mem, s0.pc).unwrap().len(),
                main_out: (s0.main_out + s).push(10),
                ..s0
            };
            match crate::zmachine::ret_step(sp, 1) {
                Some(s2) => r == ZResult::<()>::Ok(()) && s1 == s2,
                None => r == ZResult::<()>::Err(Error::Fatal),
            }
        },
    }
}

/// print_ret: print the inline string, then a newline, then return true.
pub fn print_ret_0x03(vm: &mut ZMachine) -> (r: ZResult<()>)
    requires
        old(vm).wf(),
    ensures
        final(vm).wf(),
        print_ret_post(old(vm)@, final(vm)@, r),
{
    print_0x02(vm)?;
    vm.write_main_window_char(10);
    vm.ret_value(1)
}

/// The full effect of `print_num`: the first operand, read as a signed
/// value, goes to the main window in decimal.
pub open spec fn print_num_post(
    s0: crate::zmachine::ZView,
    s1: crate::zmachine::ZView,
    operands: Seq<Operand>,
    r: ZResult<()>,
) -> bool {
    if crate::ops::op_ok(s0, operands[0]) {
        let sa = crate::ops::op_step(s0, operands[0]);
        r == ZResult::<()>::Ok(()) && s1 == (crate::zmachine::ZView {
            main_out: sa.main_out + dec_str(
                crate::ops::to_signed(crate::ops::op_val(s0, operands[0])),
            ),
            ..sa
        })
    } else {
        r == ZResult::<()>::Err(Error::Fatal)
    }
}

/// print_num: write the first operand as a signed decimal number.
pub fn print_num_0x06(vm: &mut ZMachine, operands: [Operand; 4]) -> (r: ZResult<()>)
    requires
        old(vm).wf(),
    ensures
        final(vm).wf(),
        print_num_post(old(vm)@, final(vm)@, operands@, r),
{
    let value = operands[0].value(vm)?;
    let text = signed_dec(value);
    vm.write_main_window(&text);
    Ok(())
}

/// The full effect of `print_char`: ZSCII 0 prints nothing, 13 is a
/// newline, the printable ASCII range passes through, and any other code
/// (which this interpreter does not render) prints a question mark.
pub open spec fn print_char_post(
    s0: crate::zmachine::ZView,
    s1: crate::zmachine::ZView,
    operands: Seq<Operand>,
    r: ZResult<()>,
) -> bool {
    if crate::ops::op_ok(s0, operands[0]) {
        let sa = crate::ops::op_step(s0, operands[0]);
        let ch = crate::ops::op_val(s0, operands[0]);
        let out = if ch == 0 {
            sa.main_out
        } else if ch == 13 {
            sa.main_out.push(10)
        } else if 32 <= ch <= 126 {
            sa.main_out.push((ch % 256) as u8)
        } else {
            sa.main_out.push(63)
        };
        r == ZResult::<()>::Ok(()) && s1 == (crate::zmachine::ZView { main_out: out, ..sa })
    } else {
        r == ZResult::<()>::Err(Error::Fatal)
    }
}

/// print_char: write one ZSCII character: 0 is nothing, 13 a newline,
/// the printable ASCII range passes through, anything else a question
/// mark.
pub fn print_char_0x05(vm: &mut ZMachine, operands: [Operand; 4]) -> (r: ZResult<()>)
    requires
        old(vm).wf(),
    ensures
        final(vm).wf(),
        print_char_post(old(vm)@, final(vm)@, operands@, r),
{
    let ch = operands[0].value(vm)?;
    if ch == 0 {
        // ZSCII 0 is defined to print nothing.
    } else if ch == 13 {
        vm.write_main_window_char(10);
    } else if 32 <= ch && ch <= 126 {
        vm.write_main_window_char((ch % 256) as u8);
    } else {
        vm.write_main_window_char(63);
    }
    proof {
        if crate::ops::op_ok(old(vm)@, operands@[0]) {
            assert(final(vm)@ == vm@);
        }
    }
    Ok(())
}

/// The full effect of `new_line`: one newline goes to the main window.
pub open spec fn new_line_post(
    s0: crate::zmachine::ZView,
    s1: crate::zmachine::ZView,
    r: ZResult<()>,
) -> bool {
    r == ZResult::<()>::Ok(()) && s1 == (crate::zmachine::ZView {
        main_out: s0.main_out.push(10),
        ..s0
    })
}

/// new_line: write a newline to the main window.
pub fn new_line_0x0b(vm: &mut ZMachine) -> (r: ZResult<()>)
    requires
        old(vm).wf(),
    ensures
        final(vm).wf(),
        new_line_post(old(vm)@, final(vm)@, r),
{
    vm.write_main_window_char(10);
    Ok(())
}

/// print_addr: the operand is a byte address; decode and print the
/// string there.
/// The full effect of `print_addr`: the string at the byte address the
/// operand gives goes to the main window.
pub open spec fn print_addr_post(
    s0: crate::zmachine::ZView,
    s1: crate::zmachine::ZView,
    operand: Operand,
    r: ZResult<()>,
) -> bool {
    if crate::ops::op_ok(s0, operand) {
        let sa = crate::ops::op_step(s0, operand);
        match decoded_at(sa.mem, word_at(sa.mem, 0x18), crate::ops::op_val(s0, operand) as int) {
            Some(s) => r == ZResult::<()>::Ok(()) && s1 == (crate::zmachine::ZView {
                main_out: sa.main_out + s,
                ..sa
            }),
            None => r == ZResult::<()>::Err(Error::Fatal),
        }
    } else {
        r == ZResult::<()>::Err(Error::Fatal)
    }
}

pub fn print_addr_0x07(vm: &mut ZMachine, operand: Operand) -> (r: ZResult<()>)
    requires
        old(vm).wf(),
    ensures
        final(vm).wf(),
        print_addr_post(old(vm)@, final(vm)@, operand, r),
{
    let addr = operand.value(vm)?;
    let text = decode_string_at(vm.memory(), addr as usize)?;
    vm.write_main_window(&text);
    Ok(())
}

/// print_paddr: the operand is a packed address; decode and print the
/// string there.
/// The full effect of `print_paddr`: the string at twice the operand's
/// value — its packed address — goes to the main window.
pub open spec fn print_paddr_post(
    s0: crate::zmachine::ZView,
    s1: crate::zmachine::ZView,
    operand: Operand,
    r: ZResult<()>,
) -> bool {
    if crate::ops::op_ok(s0, operand) {
        let sa = crate::ops::op_step(s0, operand);
        match decoded_at(
            sa.mem,
            word_at(sa.mem, 0x18),
            2 * crate::ops::op_val(s0, operand) as int,
        ) {
            Some(s) => r == ZResult::<()>::Ok(()) && s1 == (crate::zmachine::ZView {
                main_out: sa.main_out + s,
                ..sa
            }),
            None => r == ZResult::<()>::Err(Error::Fatal),
        }
    } else {
        r == ZResult::<()>::Err(Error::Fatal)
    }
}

pub fn print_paddr_0x0d(vm: &mut ZMachine, operand: Operand) -> (r: ZResult<()>)
    requires
        old(vm).wf(),
    ensures
        final(vm).wf(),
        print_paddr_post(old(vm)@, final(vm)@, operand, r),
{
    let addr = operand.value(vm)?;
    let text = decode_string_at(vm.memory(), addr as usize * 2)?;
    vm.write_main_window(&text);
    Ok(())
}

/// The full effect of `print_obj`: the short name in the object's
/// property header, decoded, goes to the main window.
pub open spec fn print_obj_post(
    s0: crate::zmachine::ZView,
    s1: crate::zmachine::ZView,
    operand: Operand,
    r: ZResult<()>,
) -> bool {
    if !crate::ops::op_ok(s0, operand) {
        r == ZResult::<()>::Err(Error::Fatal)
    } else {
        let sa = crate::ops::op_step(s0, operand);
        let o = crate::ops::op_val(s0, operand);
        let tptr = word_at(
            sa.mem,
            crate::mm_object_table::obj_off(word_at(sa.mem, 0x0a), o) + 7,
        );
        if !(ZMachine::view_objs(sa).contains_key(o) && tptr < sa.mem.len()) {
            r == ZResult::<()>::Err(Error::Fatal)
        } else {
            match decoded_at(sa.mem, word_at(sa.mem, 0x18), tptr + 1) {
                None => r == ZResult::<()>::Err(Error::Fatal),
                Some(name) => r == ZResult::<()>::Ok(()) && s1 == (crate::zmachine::ZView {
                    main_out: sa.main_out + name,
                    ..sa
                }),
            }
        }
    }
}

/// print_obj: print the short name from the object's property header.
pub fn print_obj_0x0a(vm: &mut ZMachine, operand: Operand) -> (r: ZResult<()>)
    requires
        old(vm).wf(),
    ensures
        final(vm).wf(),
        print_obj_post(old(vm)@, final(vm)@, operand, r),
{
    let object_number = operand.value(vm)?;
    let table = vm.obj_prop_table(object_number)?;
    let name_addr = table.ptr.to_raw().ptr() + 1;
    let text = decode_string_at(vm.memory(), name_addr)?;
    vm.write_main_window(&text);
    Ok(())
}

/// A run of `n` spaces.
pub open spec fn spaces(n: int) -> Seq<u8> {
    Seq::new(
        (if n < 0 {
            0
        } else {
            n
        }) as nat,
        |i: int| 32u8,
    )
}

/// The score half of the status line: the two counters with their
/// labels, as signed decimals.
pub open spec fn score_text(g1: u16, g2: u16) -> Seq<u8> {
    seq![83u8, 99u8, 111u8, 114u8, 101u8, 58u8, 32u8] + dec_str(crate::ops::to_signed(g1)) + seq![
        32u8,
        77u8,
        111u8,
        118u8,
        101u8,
        115u8,
        58u8,
        32u8,
    ] + dec_str(crate::ops::to_signed(g2))
}

/// The status line: a space, the short name, padding out to the screen
/// width, the counters, a closing space.
pub open spec fn status_line_spec(name: Seq<u8>, g1: u16, g2: u16, cols: u16) -> Seq<u8> {
    let left = seq![32u8] + name;
    let score = score_text(g1, g2);
    let pad: int = if score.len() < 100 && cols > left.len() && cols - left.len() > score.len()
        + 1 {
        cols - left.len() - score.len() - 1
    } else {
        0
    };
    left + spaces(pad) + score + seq![32u8]
}

/// The full effect of `show_status`: the status line is rebuilt from the
/// short name of the object global 0 names and the counters in globals 1
/// and 2.
pub open spec fn show_status_post(
    s0: crate::zmachine::ZView,
    s1: crate::zmachine::ZView,
    r: ZResult<()>,
) -> bool {
    if !crate::zmachine::read_var_ok(s0, crate::variable::VariableRef::Global(0)) {
        r == ZResult::<()>::Err(Error::Fatal)
    } else {
        let o = crate::zmachine::read_var_val(s0, crate::variable::VariableRef::Global(0));
        let tptr = word_at(
            s0.mem,
            crate::mm_object_table::obj_off(word_at(s0.mem, 0x0a), o) + 7,
        );
        if !(ZMachine::view_objs(s0).contains_key(o) && tptr < s0.mem.len()) {
            r == ZResult::<()>::Err(Error::Fatal)
        } else {
            match decoded_at(s0.mem, word_at(s0.mem, 0x18), tptr + 1) {
                None => r == ZResult::<()>::Err(Error::Fatal),
                Some(name) => {
                    if !crate::zmachine::read_var_ok(
                        s0,
                        crate::variable::VariableRef::Global(1),
                    ) || !crate::zmachine::read_var_ok(
                        s0,
                        crate::variable::VariableRef::Global(2),
                    ) {
                        r == ZResult::<()>::Err(Error::Fatal)
                    } else {
                        let g1 = crate::zmachine::read_var_val(
                            s0,
                            crate::variable::VariableRef::Global(1),
                        );
                        let g2 = crate::zmachine::read_var_val(
                            s0,
                            crate::variable::VariableRef::Global(2),
                        );
                        r == ZResult::<()>::Ok(()) && s1 == (crate::zmachine::ZView {
                            status_out: status_line_spec(name, g1, g2, s0.screen_cols),
                            ..s0
                        })
                    }
                },
            }
        }
    }
}

/// show_status: rebuild the status line: the short name of the object
/// global 0 names on the left, the score and move counters from globals
/// 1 and 2 on the right, padded to the screen width.
pub fn show_status_0x0c(vm: &mut ZMachine) -> (r: ZResult<()>)
    requires
        old(vm).wf(),
    ensures
        final(vm).wf(),
        show_status_post(old(vm)@, final(vm)@, r),
{
    let object_number = vm.read_global(0)?;
    let table = vm.obj_prop_table(object_number)?;
    let name_addr = table.ptr.to_raw().ptr() + 1;
    let name = decode_string_at(vm.memory(), name_addr)?;
    let first_num = vm.read_global(1)?;
    let second_num = vm.read_global(2)?;
    let mut line: Vec<u8> = Vec::new();
    line.push(32);
    let mut i: usize = 0;
    while i < name.len()
        invariant
            i <= name@.len(),
            line@ == seq![32u8] + name@.subrange(0, i as int),
        decreases name@.len() - i,
    {
        let b = name[i];
        line.push(b);
        i = i + 1;
        proof {
            assert(line@ =~= seq![32u8] + name@.subrange(0, i as int));
        }
    }
    proof {
        assert(name@.subrange(0, name@.len() as int) =~= name@);
    }
    let ghost left = line@;
    let mut score: Vec<u8> = Vec::new();
    score.push(83);  // S
    score.push(99);  // c
    score.push(111);  // o
    score.push(114);  // r
    score.push(101);  // e
    score.push(58);  // :
    score.push(32);
    let ghost label1 = score@;
    let d1 = signed_dec(first_num);
    let mut k: usize = 0;
    while k < d1.len()
        invariant
            k <= d1@.len(),
            score@ == label1 + d1@.subrange(0, k as int),
        decreases d1@.len() - k,
    {
        let b = d1[k];
        score.push(b);
        k = k + 1;
        proof {
            assert(score@ =~= label1 + d1@.subrange(0, k as int));
        }
    }
    proof {
        assert(d1@.subrange(0, d1@.len() as int) =~= d1@);
    }
    score.push(32);
    score.push(77);  // M
    score.push(111);  // o
    score.push(118);  // v
    score.push(101);  // e
    score.push(115);  // s
    score.push(58);  // :
    score.push(32);
    let ghost label2_done = score@;
    let d2 = signed_dec(second_num);
    let mut k2: usize = 0;
    while k2 < d2.len()
        invariant
            k2 <= d2@.len(),
            score@ == label2_done + d2@.subrange(0, k2 as int),
        decreases d2@.len() - k2,
    {
        let b = d2[k2];
        score.push(b);
        k2 = k2 + 1;
        proof {
            assert(score@ =~= label2_done + d2@.subrange(0, k2 as int));
        }
    }
    proof {
        assert(d2@.subrange(0, d2@.len() as int) =~= d2@);
        assert(score@ =~= score_text(first_num, second_num));
    }
    // Pad between name and counters out to the screen width.
    let width = vm.screen_width() as usize;
    let mut pad: usize = 0;
    if score.len() < 100 && width > line.len() {
        let avail = width - line.len();
        if avail > score.len() + 1 {
            pad = avail - score.len() - 1;
        }
    }
    let mut p: usize = 0;
    while p < pad
        invariant
            p <= pad,
            line@ == left + spaces(p as int),
        decreases pad - p,
    {
        line.push(32);
        p = p + 1;
        proof {
            assert(line@ =~= left + spaces(p as int));
        }
    }
    proof {
        assert(line@ =~= left + spaces(pad as int));
    }
    let ghost padded = line@;
    let mut q: usize = 0;
    while q < score.len()
        invariant
            q <= score@.len(),
            score@ == score_text(first_num, second_num),
            line@ == padded + score@.subrange(0, q as int),
        decreases score@.len() - q,
    {
        let b = score[q];
        line.push(b);
        q = q + 1;
        proof {
            assert(line@ =~= padded + score@.subrange(0, q as int));
        }
    }
    proof {
        assert(score@.subrange(0, score@.len() as int) =~= score@);
    }
    line.push(32);
    proof {
        assert(line@ =~= status_line_spec(
            name@,
            first_num,
            second_num,
            old(vm)@.screen_cols,
        ));
    }
    vm.write_status_line(&line);
    Ok(())
}

/// Whether byte `b` is printable through the three alphabet rows: the
/// lowercase and uppercase letters, the space, and the punctuation row
/// without its unused first slot.
pub open spec fn zscii_printable(b: u8) -> bool {
    ||| b == 32
    ||| 97 <= b <= 122
    ||| 65 <= b <= 90
    ||| b == 10
    ||| 48 <= b <= 57
    ||| b == 46 || b == 44 || b == 33 || b == 63 || b == 95 || b == 35 || b == 39 || b == 34
    ||| b == 47 || b == 92 || b == 45 || b == 58 || b == 40 || b == 41
}

/// The Z-characters encoding printable byte `b`: a bare character for
/// the lowercase row, a single-shift prefix for the other rows.
pub open spec fn zchar_encoding(b: u8) -> Seq<u16> {
    if b == 32 {
        seq![0u16]
    } else if 97 <= b <= 122 {
        seq![(b - 97 + 6) as u16]
    } else if 65 <= b <= 90 {
        seq![4u16, (b - 65 + 6) as u16]
    } else {
        seq![
            5u16,
            (if b == 10 {
                7
            } else if 48 <= b <= 57 {
                (b - 48 + 8) as u16
            } else if b == 46 {
                18
            } else if b == 44 {
                19
            } else if b == 33 {
                20
            } else if b == 63 {
                21
            } else if b == 95 {
                22
            } else if b == 35 {
                23
            } else if b == 39 {
                24
            } else if b == 34 {
                25
            } else if b == 47 {
                26
            } else if b == 92 {
                27
            } else if b == 45 {
                28
            } else if b == 58 {
                29
            } else if b == 40 {
                30
            } else {
                31
            }) as u16,
        ]
    }
}

/// The encoding of a whole string of printable bytes.
pub open spec fn zchar_encode_string(s: Seq<u8>) -> Seq<u16>
    decreases s.len(),
{
    if s.len() == 0 {
        Seq::empty()
    } else {
        zchar_encoding(s[0]) + zchar_encode_string(s.skip(1))
    }
}

/// ZSCII round trip, one character: decoding the encoding of any
/// printable byte yields exactly that byte, whatever decoder context the
/// characters are read in.
pub proof fn lemma_zscii_char_round_trip(m: Seq<u8>, abase: int, b: u8, in_abbrev: bool)
    requires
        zscii_printable(b),
    ensures
        decode_chars(m, abase, zchar_encoding(b), 0, 0, 0, in_abbrev) == Some(seq![b]),
{
    reveal_with_fuel(decode_chars, 4);
    let cs = zchar_encoding(b);
    if b == 32 {
        assert(cs.skip(1) =~= Seq::<u16>::empty());
        assert(decode_chars(m, abase, cs, 0, 0, 0, in_abbrev) =~= Some(seq![b]));
    } else if 97 <= b <= 122 {
        assert(cs.skip(1) =~= Seq::<u16>::empty());
        assert(alphabet(0, (b - 97 + 6) as int) == b);
        assert(decode_chars(m, abase, cs, 0, 0, 0, in_abbrev) =~= Some(seq![b]));
    } else if 65 <= b <= 90 {
        assert(cs.skip(1).skip(1) =~= Seq::<u16>::empty());
        assert(cs.skip(1)[0] == (b - 65 + 6) as u16);
        assert(alphabet(1, (b - 65 + 6) as int) == b);
        assert(decode_chars(m, abase, cs, 0, 0, 0, in_abbrev) =~= Some(seq![b]));
    } else {
        assert(cs.skip(1).skip(1) =~= Seq::<u16>::empty());
        let c = cs[1] as int;
        assert(7 <= c <= 31);
        assert(alphabet(2, c) == b);
        assert(decode_chars(m, abase, cs, 0, 0, 0, in_abbrev) =~= Some(seq![b]));
    }
}

/// Decoding distributes over a leading printable character: the decoder
/// returns to its initial state after each encoded character, so the
/// rest of the stream decodes independently.
pub proof fn lemma_zscii_char_prefix(
    m: Seq<u8>,
    abase: int,
    b: u8,
    rest: Seq<u16>,
    in_abbrev: bool,
)
    requires
        zscii_printable(b),
    ensures
        decode_chars(m, abase, zchar_encoding(b) + rest, 0, 0, 0, in_abbrev) == (match decode_chars(
            m,
            abase,
            rest,
            0,
            0,
            0,
            in_abbrev,
        ) {
            Some(s) => Some(seq![b] + s),
            None => None,
        }),
{
    reveal_with_fuel(decode_chars, 4);
    let cs = zchar_encoding(b) + rest;
    if b == 32 {
        assert(cs.skip(1) =~= rest);
    } else if 97 <= b <= 122 {
        assert(cs.skip(1) =~= rest);
        assert(alphabet(0, (b - 97 + 6) as int) == b);
    } else if 65 <= b <= 90 {
        assert(cs.skip(1).skip(1) =~= rest);
        assert(cs[1] == (b - 65 + 6) as u16);
        assert(alphabet(1, (b - 65 + 6) as int) == b);
    } else {
        assert(cs.skip(1).skip(1) =~= rest);
        let c = cs[1] as int;
        assert(7 <= c <= 31);
        assert(alphabet(2, c) == b);
    }
}

/// ZSCII round trip over the printable ranges: a string of printable
/// bytes decodes back from its encoding exactly.
pub proof fn lemma_zscii_round_trip(m: Seq<u8>, abase: int, s: Seq<u8>, in_abbrev: bool)
    requires
        forall|i: int| 0 <= i < s.len() ==> zscii_printable(#[trigger] s[i]),
    ensures
        decode_chars(m, abase, zchar_encode_string(s), 0, 0, 0, in_abbrev) == Some(s),
    decreases s.len(),
{
    if s.len() == 0 {
        assert(zchar_encode_string(s) =~= Seq::<u16>::empty());
        assert(decode_chars(m, abase, Seq::<u16>::empty(), 0, 0, 0, in_abbrev) == Some(
            Seq::<u8>::empty(),
        ));
        assert(s =~= Seq::<u8>::empty());
    } else {
        assert(forall|i: int|
            0 <= i < s.skip(1).len() ==> zscii_printable(#[trigger] s.skip(1)[i]));
        lemma_zscii_round_trip(m, abase, s.skip(1), in_abbrev);
        lemma_zscii_char_prefix(m, abase, s[0], zchar_encode_string(s.skip(1)), in_abbrev);
        assert(seq![s[0]] + s.skip(1) =~= s);
    }
}

} // verus!
