//! The Quetzal save format: an IFF `FORM` container tagged `IFZS`,
//! holding an `IFhd` chunk (release, serial, checksum, PC), a `UMem`
//! chunk (the dynamic memory verbatim), and a `Stks` chunk (the call
//! stack, oldest frame first).

use vstd::prelude::*;

use crate::memory::{word_at, Memory};
use crate::result::{Error, ZResult};
use crate::stack::{FrameInfo, Stack};

verus! {

/// An open chunk: its tag has been written and its length field will be
/// patched when the chunk ends.
pub struct Chunk {
    pub start_offset: usize,
}

impl Chunk {
    /// Begin a chunk: write the four tag bytes and a zero length.
    pub fn start(id: [u8; 4], bytes: &mut Vec<u8>) -> (r: Chunk)
        ensures
            final(bytes)@ == old(bytes)@ + seq![
                id@[0],
                id@[1],
                id@[2],
                id@[3],
                0u8,
                0u8,
                0u8,
                0u8,
            ],
            final(bytes)@.len() == old(bytes)@.len() + 8,
            final(bytes)@.subrange(0, old(bytes)@.len() as int) == old(bytes)@,
            r.start_offset == old(bytes)@.len(),
    {
        let r = Chunk { start_offset: bytes.len() };
        bytes.push(id[0]);
        bytes.push(id[1]);
        bytes.push(id[2]);
        bytes.push(id[3]);
        bytes.push(0);
        bytes.push(0);
        bytes.push(0);
        bytes.push(0);
        proof {
            assert(bytes@ =~= old(bytes)@ + seq![
                id@[0],
                id@[1],
                id@[2],
                id@[3],
                0u8,
                0u8,
                0u8,
                0u8,
            ]);
            assert(bytes@.subrange(0, old(bytes)@.len() as int) =~= old(bytes)@);
        }
        r
    }

    /// End the chunk: patch its length field with the bytes written since
    /// `start`, and pad to even length as the format requires.
    pub fn end(self, bytes: &mut Vec<u8>) -> (r: ZResult<()>)
        ensures
            final(bytes)@.len() >= old(bytes)@.len(),
            r.is_err() ==> r == ZResult::<()>::Err(Error::Fatal) && final(bytes)@ == old(bytes)@,
            forall|i: int|
                0 <= i < self.start_offset && i < old(bytes)@.len() ==> final(bytes)@[i] == old(
                    bytes,
                )@[i],
            forall|i: int|
                self.start_offset <= i < self.start_offset + 4 && i < old(bytes)@.len()
                    ==> final(bytes)@[i] == old(bytes)@[i],
            forall|i: int|
                self.start_offset + 8 <= i < old(bytes)@.len() ==> final(bytes)@[i] == old(
                    bytes,
                )@[i],
            r.is_ok() == (old(bytes)@.len() >= self.start_offset + 8 && old(bytes)@.len()
                - self.start_offset - 8 <= 0xffffffff),
            self.start_offset + 8 <= old(bytes)@.len() && old(bytes)@.len() - self.start_offset - 8
                <= 0xffffffff ==> {
                let used = old(bytes)@.len() - self.start_offset - 8;
                let patched = old(bytes)@.update(
                    self.start_offset + 4,
                    (used / 0x1000000) as u8,
                ).update(self.start_offset + 5, ((used / 0x10000) % 0x100) as u8).update(
                    self.start_offset + 6,
                    ((used / 0x100) % 0x100) as u8,
                ).update(self.start_offset + 7, (used % 0x100) as u8);
                &&& r == ZResult::<()>::Ok(())
                &&& final(bytes)@ == (if used % 2 == 1 {
                    patched.push(0)
                } else {
                    patched
                })
            },
    {
        let here = bytes.len();
        if here < 8 || self.start_offset > here - 8 {
            return Err(Error::Fatal);
        }
        let used = here - self.start_offset - 8;
        if used > 0xffffffff {
            return Err(Error::Fatal);
        }
        let used32 = used as u32;
        bytes.set(self.start_offset + 4, (used32 / 0x1000000) as u8);
        bytes.set(self.start_offset + 5, ((used32 / 0x10000) % 0x100) as u8);
        bytes.set(self.start_offset + 6, ((used32 / 0x100) % 0x100) as u8);
        bytes.set(self.start_offset + 7, (used32 % 0x100) as u8);
        if used % 2 == 1 {
            bytes.push(0);
        }
        Ok(())
    }
}

/// Frames small enough that the `Stks` chunk always fits: at most the
/// frame count a 16-bit stack can hold, each with the format's 15
/// locals and an evaluation stack within half the stack bytes.
pub open spec fn frames_fit(fs: Seq<FrameInfo>) -> bool {
    &&& fs.len() <= 0x2000
    &&& forall|k: int|
        0 <= k < fs.len() ==> (#[trigger] fs[k]).locals@.len() <= 15 && fs[k].eval@.len() <= 0x8000
}

/// A word sequence as big-endian bytes, high byte first.
#[verifier::opaque]
pub open spec fn words_be(ws: Seq<u16>) -> Seq<u8> {
    Seq::new(
        2 * ws.len(),
        |i: int|
            if i % 2 == 0 {
                ((ws[i / 2] as int) / 0x100) as u8
            } else {
                ((ws[i / 2] as int) % 0x100) as u8
            },
    )
}

/// One frame of the `Stks` payload: three return-PC bytes, the flags
/// byte, the result target, the arguments bitmap, the evaluation word
/// count, then the locals and evaluation words in big-endian form.
#[verifier::opaque]
pub open spec fn stks_frame(f: FrameInfo) -> Seq<u8> {
    let pc32 = (f.return_pc as int) % 0x1000000;
    seq![
        (pc32 / 0x10000) as u8,
        ((pc32 / 0x100) % 0x100) as u8,
        (pc32 % 0x100) as u8,
        f.flags,
        f.result_var,
        0u8,
        ((f.eval@.len() as int) / 0x100) as u8,
        ((f.eval@.len() as int) % 0x100) as u8,
    ] + words_be(f.locals@) + words_be(f.eval@)
}

/// The `Stks` payload: every frame in order, oldest first.
#[verifier::opaque]
pub open spec fn stks_payload(fs: Seq<FrameInfo>) -> Seq<u8>
    decreases fs.len(),
{
    if fs.len() == 0 {
        Seq::empty()
    } else {
        stks_frame(fs[0]) + stks_payload(fs.skip(1))
    }
}

/// The whole `Stks` chunk as emitted: tag, the payload length as a
/// big-endian word, and the payload (always of even length).
pub open spec fn stks_chunk(fs: Seq<FrameInfo>) -> Seq<u8> {
    let payload = stks_payload(fs);
    let used = payload.len() as int;
    seq![
        83u8,
        116u8,
        107u8,
        115u8,
        (used / 0x1000000) as u8,
        ((used / 0x10000) % 0x100) as u8,
        ((used / 0x100) % 0x100) as u8,
        (used % 0x100) as u8,
    ] + payload
}

/// A sequence of word values as big-endian bytes, high byte first.
#[verifier::opaque]
pub open spec fn word_vals_be(ws: Seq<int>) -> Seq<u8> {
    Seq::new(
        2 * ws.len(),
        |i: int|
            if i % 2 == 0 {
                ((ws[i / 2]) / 0x100) as u8
            } else {
                ((ws[i / 2]) % 0x100) as u8
            },
    )
}

/// One frame of the `Stks` payload, written from the stack's own frame
/// decomposition: the same bytes `stks_frame` gives for a record that
/// carries these fields.
#[verifier::opaque]
pub open spec fn frame_fields_bytes(t: (int, int, int, Seq<int>, Seq<int>)) -> Seq<u8> {
    let pc32 = t.0 % 0x1000000;
    seq![
        (pc32 / 0x10000) as u8,
        ((pc32 / 0x100) % 0x100) as u8,
        (pc32 % 0x100) as u8,
        t.1 as u8,
        t.2 as u8,
        0u8,
        ((t.4.len() as int) / 0x100) as u8,
        ((t.4.len() as int) % 0x100) as u8,
    ] + word_vals_be(t.3) + word_vals_be(t.4)
}

/// The `Stks` payload for a frame decomposition, oldest frame first.
#[verifier::opaque]
pub open spec fn frames_payload_bytes(ts: Seq<(int, int, int, Seq<int>, Seq<int>)>) -> Seq<u8>
    decreases ts.len(),
{
    if ts.len() == 0 {
        Seq::empty()
    } else {
        frame_fields_bytes(ts[0]) + frames_payload_bytes(ts.skip(1))
    }
}

/// The whole `Stks` chunk for a frame decomposition.
pub open spec fn frames_chunk_bytes(ts: Seq<(int, int, int, Seq<int>, Seq<int>)>) -> Seq<u8> {
    let payload = frames_payload_bytes(ts);
    let used = payload.len() as int;
    seq![
        83u8,
        116u8,
        107u8,
        115u8,
        (used / 0x1000000) as u8,
        ((used / 0x10000) % 0x100) as u8,
        ((used / 0x100) % 0x100) as u8,
        (used % 0x100) as u8,
    ] + payload
}

/// The `UMem` chunk's byte count: header, dynamic bytes, and the odd
/// pad, which together always come to an even total.
proof fn lemma_umem_chunk_len(m: Seq<u8>, sbase: int)
    requires
        0 <= sbase <= m.len(),
    ensures
        umem_chunk(m, sbase).len() == 8 + sbase + (if sbase % 2 == 1 {
            1int
        } else {
            0int
        }),
        umem_chunk(m, sbase).len() % 2 == 0,
{
}

/// Patching the outer length field of a fully assembled image leaves
/// every chunk in place and records the container's even byte count.
#[verifier::rlimit(100)]
#[verifier::spinoff_prover]
proof fn lemma_image_layout(
    m: Seq<u8>,
    sbase: int,
    pc: int,
    stks: Seq<u8>,
    pre_end: Seq<u8>,
    out: Seq<u8>,
)
    requires
        0 <= sbase <= m.len(),
        stks.len() % 2 == 0,
        pre_end == seq![70u8, 79u8, 82u8, 77u8, 0u8, 0u8, 0u8, 0u8, 73u8, 70u8, 90u8, 83u8]
            + ifhd_chunk(m, pc) + umem_chunk(m, sbase) + stks,
        pre_end.len() - 8 <= 0xffffffff,
        ({
            let used = pre_end.len() - 8;
            let patched = pre_end.update(4, (used / 0x1000000) as u8).update(
                5,
                ((used / 0x10000) % 0x100) as u8,
            ).update(6, ((used / 0x100) % 0x100) as u8).update(7, (used % 0x100) as u8);
            out == (if used % 2 == 1 {
                patched.push(0)
            } else {
                patched
            })
        }),
    ensures
        out.len() == 34 + umem_chunk(m, sbase).len() + stks.len(),
        out.subrange(0, 4) == seq![70u8, 79u8, 82u8, 77u8],
        out.subrange(8, 12) == seq![73u8, 70u8, 90u8, 83u8],
        out.subrange(12, 34) == ifhd_chunk(m, pc),
        out.subrange(34, 34 + umem_chunk(m, sbase).len() as int) == umem_chunk(m, sbase),
        out.subrange(
            34 + umem_chunk(m, sbase).len() as int,
            34 + umem_chunk(m, sbase).len() as int + stks.len() as int,
        ) == stks,
        crate::memory::dword_at(out, 4) == out.len() - 8,
        out.len() == 8 + crate::memory::dword_at(out, 4) + (crate::memory::dword_at(out, 4) % 2),
{
    lemma_umem_chunk_len(m, sbase);
    let used = pre_end.len() - 8;
    let umem = umem_chunk(m, sbase);
    assert(ifhd_chunk(m, pc).len() == 22);
    assert(pre_end.len() == 34 + umem.len() + stks.len());
    assert(used % 2 == 0);
    let patched = pre_end.update(4, (used / 0x1000000) as u8).update(
        5,
        ((used / 0x10000) % 0x100) as u8,
    ).update(6, ((used / 0x100) % 0x100) as u8).update(7, (used % 0x100) as u8);
    assert(out == patched);
    assert(crate::memory::dword_at(out, 4) == used);
    assert(out.subrange(0, 4) =~= seq![70u8, 79u8, 82u8, 77u8]);
    assert(out.subrange(8, 12) =~= seq![73u8, 70u8, 90u8, 83u8]);
    assert(out.subrange(12, 34) =~= ifhd_chunk(m, pc));
    assert(out.subrange(34, 34 + umem.len() as int) =~= umem);
    assert(out.subrange(34 + umem.len() as int, 34 + umem.len() as int + stks.len() as int)
        =~= stks);
}

/// A frame record that matches a decomposed frame serializes to the
/// bytes the decomposition itself gives.
proof fn lemma_frame_matches_bytes(f: FrameInfo, t: (int, int, int, Seq<int>, Seq<int>))
    requires
        crate::stack::frame_matches(f, t),
    ensures
        stks_frame(f) == frame_fields_bytes(t),
{
    reveal(words_be);
    reveal(word_vals_be);
    reveal(stks_frame);
    reveal(frame_fields_bytes);
    assert(words_be(f.locals@) =~= word_vals_be(t.3));
    assert(words_be(f.eval@) =~= word_vals_be(t.4));
    assert(stks_frame(f) =~= frame_fields_bytes(t));
}

/// Frame records that match a decomposition serialize to the payload
/// the decomposition itself gives.
proof fn lemma_frames_match_payload(
    fs: Seq<FrameInfo>,
    ts: Seq<(int, int, int, Seq<int>, Seq<int>)>,
)
    requires
        fs.len() == ts.len(),
        forall|k: int| 0 <= k < ts.len() ==> crate::stack::frame_matches(#[trigger] fs[k], ts[k]),
    ensures
        stks_payload(fs) == frames_payload_bytes(ts),
    decreases fs.len(),
{
    reveal(stks_payload);
    reveal(frames_payload_bytes);
    if fs.len() > 0 {
        lemma_frame_matches_bytes(fs[0], ts[0]);
        assert forall|k: int| 0 <= k < ts.skip(1).len() implies crate::stack::frame_matches(
            #[trigger] fs.skip(1)[k],
            ts.skip(1)[k],
        ) by {
            assert(fs.skip(1)[k] == fs[k + 1]);
            assert(ts.skip(1)[k] == ts[k + 1]);
        }
        lemma_frames_match_payload(fs.skip(1), ts.skip(1));
    }
}

/// Appending one word to a prefix appends its two big-endian bytes.
proof fn lemma_words_be_snoc(ws: Seq<u16>, l: int)
    requires
        0 <= l < ws.len(),
    ensures
        words_be(ws.take(l + 1)) == words_be(ws.take(l)) + seq![
            ((ws[l] as int) / 0x100) as u8,
            ((ws[l] as int) % 0x100) as u8,
        ],
{
    reveal(words_be);
    let lhs = words_be(ws.take(l + 1));
    let rhs = words_be(ws.take(l)) + seq![
        ((ws[l] as int) / 0x100) as u8,
        ((ws[l] as int) % 0x100) as u8,
    ];
    assert forall|i: int| 0 <= i < 2 * l + 2 implies lhs[i] == rhs[i] by {
        assert(0 <= i / 2 <= l);
        if i < 2 * l {
            assert(i / 2 < l);
        }
    }
    assert(lhs =~= rhs);
}

/// Serializing one more frame appends its encoding to the payload.
proof fn lemma_stks_payload_snoc(fs: Seq<FrameInfo>, f: int)
    requires
        0 <= f < fs.len(),
    ensures
        stks_payload(fs.take(f + 1)) == stks_payload(fs.take(f)) + stks_frame(fs[f]),
    decreases f,
{
    reveal(stks_payload);
    if f == 0 {
        assert(fs.take(0) =~= Seq::<FrameInfo>::empty());
        assert(fs.take(1).skip(1) =~= Seq::<FrameInfo>::empty());
        assert(stks_payload(fs.take(1)) =~= stks_frame(fs[0]) + stks_payload(fs.take(1).skip(1)));
        assert(stks_payload(fs.take(1)) =~= stks_payload(fs.take(0)) + stks_frame(fs[0]));
    } else {
        lemma_stks_payload_snoc(fs.skip(1), f - 1);
        assert(fs.take(f + 1).skip(1) =~= fs.skip(1).take(f));
        assert(fs.take(f).skip(1) =~= fs.skip(1).take(f - 1));
        assert(fs.skip(1)[f - 1] == fs[f]);
        assert(stks_payload(fs.take(f + 1)) == stks_frame(fs[0]) + stks_payload(
            fs.skip(1).take(f),
        ));
        assert(stks_payload(fs.take(f)) == stks_frame(fs[0]) + stks_payload(
            fs.skip(1).take(f - 1),
        ));
        assert(stks_payload(fs.take(f + 1)) =~= stks_payload(fs.take(f)) + stks_frame(fs[f]));
    }
}

/// Every frame encodes to an even byte count, so the payload is even.
proof fn lemma_stks_payload_even(fs: Seq<FrameInfo>)
    ensures
        stks_payload(fs).len() % 2 == 0,
    decreases fs.len(),
{
    reveal(words_be);
    reveal(stks_frame);
    reveal(stks_payload);
    if fs.len() > 0 {
        lemma_stks_payload_even(fs.skip(1));
    }
}

/// The 13 payload bytes of the `IFhd` chunk: release word, six serial
/// bytes, checksum word, and the 3-byte program counter.
pub open spec fn ifhd_payload(m: Seq<u8>, pc: int) -> Seq<u8> {
    seq![
        (word_at(m, 2) / 256) as u8,
        (word_at(m, 2) % 256) as u8,
        m[0x12],
        m[0x13],
        m[0x14],
        m[0x15],
        m[0x16],
        m[0x17],
        (word_at(m, 0x1c) / 256) as u8,
        (word_at(m, 0x1c) % 256) as u8,
        ((pc % 0x1000000) / 0x10000) as u8,
        (((pc % 0x1000000) / 0x100) % 0x100) as u8,
        ((pc % 0x1000000) % 0x100) as u8,
    ]
}

/// The whole `IFhd` chunk as emitted: tag, length 13, payload, and one
/// pad byte for the odd length.
pub open spec fn ifhd_chunk(m: Seq<u8>, pc: int) -> Seq<u8> {
    seq![73u8, 70u8, 104u8, 100u8, 0u8, 0u8, 0u8, 13u8] + ifhd_payload(m, pc) + seq![0u8]
}

/// The whole `UMem` chunk as emitted: tag, the dynamic byte count as a
/// big-endian length, the dynamic memory verbatim, and a pad byte when
/// that count is odd.
pub open spec fn umem_chunk(m: Seq<u8>, sbase: int) -> Seq<u8> {
    seq![
        85u8,
        77u8,
        101u8,
        109u8,
        (sbase / 0x1000000) as u8,
        ((sbase / 0x10000) % 0x100) as u8,
        ((sbase / 0x100) % 0x100) as u8,
        (sbase % 0x100) as u8,
    ] + m.subrange(0, sbase) + (if sbase % 2 == 1 {
        seq![0u8]
    } else {
        Seq::<u8>::empty()
    })
}

/// A Quetzal save image under construction.
pub struct Quetzal {
    bytes: Vec<u8>,
}

impl Quetzal {
    /// Write the `IFhd` chunk: release word, six serial bytes, checksum
    /// word, and the 3-byte program counter.
    fn write_header(&mut self, memory: &Memory, pc: usize) -> (r: ZResult<()>)
        requires
            memory@.len() >= 64,
        ensures
            r == ZResult::<()>::Ok(()),
            final(self).bytes@ == old(self).bytes@ + ifhd_chunk(memory@, pc as int),
            final(self).bytes@.len() == old(self).bytes@.len() + 22,
            forall|i: int|
                0 <= i < old(self).bytes@.len() ==> final(self).bytes@[i] == old(self).bytes@[i],
    {
        let ghost base = old(self).bytes@;
        let chunk = Chunk::start([73, 70, 104, 100], &mut self.bytes);
        let release = memory.u16_at_index(0x02);
        self.bytes.push((release / 256) as u8);
        self.bytes.push((release % 256) as u8);
        let mut i: usize = 0;
        while i < 6
            invariant
                i <= 6,
                memory@.len() >= 64,
                base == old(self).bytes@,
                chunk.start_offset == old(self).bytes@.len(),
                self.bytes@.len() == old(self).bytes@.len() + 10 + i,
                self.bytes@ == base + seq![73u8, 70u8, 104u8, 100u8, 0u8, 0u8, 0u8, 0u8] + seq![
                    (word_at(memory@, 2) / 256) as u8,
                    (word_at(memory@, 2) % 256) as u8,
                ] + memory@.subrange(0x12, 0x12 + i),
            decreases 6 - i,
        {
            let b = memory.u8_at_index(0x12 + i);
            self.bytes.push(b);
            i = i + 1;
            proof {
                assert(self.bytes@ =~= base + seq![73u8, 70u8, 104u8, 100u8, 0u8, 0u8, 0u8, 0u8]
                    + seq![
                    (word_at(memory@, 2) / 256) as u8,
                    (word_at(memory@, 2) % 256) as u8,
                ] + memory@.subrange(0x12, 0x12 + i));
            }
        }
        let checksum = memory.u16_at_index(0x1c);
        self.bytes.push((checksum / 256) as u8);
        self.bytes.push((checksum % 256) as u8);
        let pc32 = (pc % 0x1000000) as u32;
        self.bytes.push((pc32 / 0x10000) as u8);
        self.bytes.push(((pc32 / 0x100) % 0x100) as u8);
        self.bytes.push((pc32 % 0x100) as u8);
        let ghost pre_end = self.bytes@;
        let r = chunk.end(&mut self.bytes);
        proof {
            assert(pre_end =~= base + seq![73u8, 70u8, 104u8, 100u8, 0u8, 0u8, 0u8, 0u8]
                + ifhd_payload(memory@, pc as int));
            assert(self.bytes@ =~= base + ifhd_chunk(memory@, pc as int));
        }
        r
    }

    /// Write the `UMem` chunk: the dynamic memory, verbatim.
    fn write_umem(&mut self, memory: &Memory) -> (r: ZResult<()>)
        requires
            memory.wf(),
        ensures
            r == ZResult::<()>::Ok(()),
            final(self).bytes@ == old(self).bytes@ + umem_chunk(memory@, memory.sbase()),
            final(self).bytes@.len() >= old(self).bytes@.len(),
            final(self).bytes@.len() <= old(self).bytes@.len() + 9 + 0x10000,
            forall|i: int|
                0 <= i < old(self).bytes@.len() ==> final(self).bytes@[i] == old(self).bytes@[i],
    {
        let ghost base = old(self).bytes@;
        let chunk = Chunk::start([85, 77, 101, 109], &mut self.bytes);
        let end = memory.static_base();
        let mut i: usize = 0;
        proof {
            crate::memory::lemma_wf_bounds(*memory);
            assert(memory@.subrange(0, 0) =~= Seq::<u8>::empty());
        }
        while i < end
            invariant
                end == memory.sbase(),
                end <= memory@.len(),
                end <= 0xffff,
                i <= end,
                base == old(self).bytes@,
                chunk.start_offset == old(self).bytes@.len(),
                self.bytes@.len() == old(self).bytes@.len() + 8 + i,
                self.bytes@ == base + seq![85u8, 77u8, 101u8, 109u8, 0u8, 0u8, 0u8, 0u8]
                    + memory@.subrange(0, i as int),
            decreases end - i,
        {
            let b = memory.u8_at_index(i);
            self.bytes.push(b);
            i = i + 1;
            proof {
                assert(self.bytes@ =~= base + seq![85u8, 77u8, 101u8, 109u8, 0u8, 0u8, 0u8, 0u8]
                    + memory@.subrange(0, i as int));
            }
        }
        let ghost pre_end = self.bytes@;
        let r = chunk.end(&mut self.bytes);
        proof {
            assert(self.bytes@ =~= base + umem_chunk(memory@, memory.sbase()));
        }
        r
    }

    /// Write the `Stks` chunk: each frame's return PC (3 bytes), flags
    /// byte (the local count), result-target byte, arguments bitmap,
    /// evaluation-stack size word, then the locals and stack words.
    fn write_stacks(&mut self, frames: &Vec<FrameInfo>) -> (r: ZResult<()>)
        ensures
            r.is_err() ==> r == ZResult::<()>::Err(Error::Fatal),
            frames_fit(frames@) ==> r == ZResult::<()>::Ok(()),
            frames_fit(frames@) ==> final(self).bytes@.len() <= old(self).bytes@.len() + 9 + 0x2000
                * 0x10026,
            frames_fit(frames@) ==> final(self).bytes@ == old(self).bytes@ + stks_chunk(frames@),
            final(self).bytes@.len() >= old(self).bytes@.len(),
            forall|i: int|
                0 <= i < old(self).bytes@.len() ==> final(self).bytes@[i] == old(self).bytes@[i],
    {
        let chunk = Chunk::start([83, 116, 107, 115], &mut self.bytes);
        let ghost tagged = self.bytes@;
        proof {
            assert(tagged =~= old(self).bytes@ + seq![
                83u8,
                116u8,
                107u8,
                115u8,
                0u8,
                0u8,
                0u8,
                0u8,
            ]);
            reveal(stks_payload);
            assert(frames@.take(0) =~= Seq::<FrameInfo>::empty());
            assert(self.bytes@ =~= tagged + stks_payload(frames@.take(0)));
        }
        let mut f: usize = 0;
        while f < frames.len()
            invariant
                f <= frames@.len(),
                chunk.start_offset == old(self).bytes@.len(),
                tagged == old(self).bytes@ + seq![83u8, 116u8, 107u8, 115u8, 0u8, 0u8, 0u8, 0u8],
                self.bytes@ == tagged + stks_payload(frames@.take(f as int)),
                self.bytes@.len() >= old(self).bytes@.len() + 8,
                frames_fit(frames@) ==> self.bytes@.len() <= old(self).bytes@.len() + 8 + f
                    * 0x10026,
                forall|q2: int|
                    0 <= q2 < old(self).bytes@.len() ==> self.bytes@[q2] == old(self).bytes@[q2],
            decreases frames@.len() - f,
        {
            let ghost flen = self.bytes@.len();
            let ghost before_frame = self.bytes@;
            let frame = &frames[f];
            let pc32 = frame.return_pc % 0x1000000;
            self.bytes.push((pc32 / 0x10000) as u8);
            self.bytes.push(((pc32 / 0x100) % 0x100) as u8);
            self.bytes.push((pc32 % 0x100) as u8);
            self.bytes.push(frame.flags);
            self.bytes.push(frame.result_var);
            self.bytes.push(0);  // arguments-passed bitmap: not tracked
            let nwords = frame.eval.len();
            if nwords > 0xffff {
                proof {
                    if frames_fit(frames@) {
                        assert(frames@[f as int].eval@.len() <= 0x8000);
                    }
                }
                return Err(Error::Fatal);
            }
            self.bytes.push((nwords / 256) as u8);
            self.bytes.push((nwords % 256) as u8);
            let ghost spc = (frame.return_pc as int) % 0x1000000;
            let ghost head = before_frame + seq![
                (spc / 0x10000) as u8,
                ((spc / 0x100) % 0x100) as u8,
                (spc % 0x100) as u8,
                frame.flags,
                frame.result_var,
                0u8,
                ((frame.eval@.len() as int) / 0x100) as u8,
                ((frame.eval@.len() as int) % 0x100) as u8,
            ];
            proof {
                assert(self.bytes@ =~= head);
                reveal(words_be);
                assert(frame.locals@.take(0) =~= Seq::<u16>::empty());
                assert(self.bytes@ =~= head + words_be(frame.locals@.take(0)));
            }
            let mut l: usize = 0;
            while l < frame.locals.len()
                invariant
                    l <= frame.locals@.len(),
                    chunk.start_offset == old(self).bytes@.len(),
                    self.bytes@ == head + words_be(frame.locals@.take(l as int)),
                    head.len() == flen + 8,
                    self.bytes@.len() == flen + 8 + 2 * l,
                    flen >= old(self).bytes@.len() + 8,
                    forall|q2: int|
                        0 <= q2 < old(self).bytes@.len() ==> self.bytes@[q2] == old(
                            self,
                        ).bytes@[q2],
                decreases frame.locals@.len() - l,
            {
                let w = frame.locals[l];
                self.bytes.push((w / 256) as u8);
                self.bytes.push((w % 256) as u8);
                proof {
                    lemma_words_be_snoc(frame.locals@, l as int);
                    assert(self.bytes@ =~= head + words_be(frame.locals@.take(l + 1)));
                }
                l = l + 1;
            }
            proof {
                assert(frame.locals@.take(frame.locals@.len() as int) =~= frame.locals@);
            }
            let ghost with_locals = head + words_be(frame.locals@);
            proof {
                reveal(words_be);
                assert(frame.eval@.take(0) =~= Seq::<u16>::empty());
                assert(self.bytes@ =~= with_locals + words_be(frame.eval@.take(0)));
            }
            let mut e: usize = 0;
            while e < frame.eval.len()
                invariant
                    e <= frame.eval@.len(),
                    chunk.start_offset == old(self).bytes@.len(),
                    self.bytes@ == with_locals + words_be(frame.eval@.take(e as int)),
                    with_locals.len() == flen + 8 + 2 * frame.locals@.len(),
                    self.bytes@.len() == flen + 8 + 2 * frame.locals@.len() + 2 * e,
                    flen >= old(self).bytes@.len() + 8,
                    forall|q2: int|
                        0 <= q2 < old(self).bytes@.len() ==> self.bytes@[q2] == old(
                            self,
                        ).bytes@[q2],
                decreases frame.eval@.len() - e,
            {
                let w = frame.eval[e];
                self.bytes.push((w / 256) as u8);
                self.bytes.push((w % 256) as u8);
                proof {
                    lemma_words_be_snoc(frame.eval@, e as int);
                    assert(self.bytes@ =~= with_locals + words_be(frame.eval@.take(e + 1)));
                }
                e = e + 1;
            }
            proof {
                assert(frame.eval@.take(frame.eval@.len() as int) =~= frame.eval@);
                reveal(stks_frame);
                assert(self.bytes@ =~= before_frame + stks_frame(frames@[f as int]));
                lemma_stks_payload_snoc(frames@, f as int);
                assert(self.bytes@ =~= tagged + stks_payload(frames@.take(f as int + 1)));
                if frames_fit(frames@) {
                    assert(frames@[f as int].locals@.len() <= 15);
                    assert(frames@[f as int].eval@.len() <= 0x8000);
                    assert(self.bytes@.len() <= flen + 0x10026) by (nonlinear_arith)
                        requires
                            self.bytes@.len() == flen + 8 + 2 * frames@[f as int].locals@.len() + 2
                                * frames@[f as int].eval@.len(),
                            frames@[f as int].locals@.len() <= 15,
                            frames@[f as int].eval@.len() <= 0x8000,
                    ;
                }
            }
            f = f + 1;
        }
        proof {
            assert(frames@.take(frames@.len() as int) =~= frames@);
        }
        proof {
            if frames_fit(frames@) {
                let total = self.bytes@.len() as int;
                let base = old(self).bytes@.len() as int;
                let nf = frames@.len() as int;
                assert(total - base - 8 <= 0x2000 * 0x10026) by (nonlinear_arith)
                    requires
                        total <= base + 8 + nf * 0x10026,
                        0 <= nf <= 0x2000,
                ;
            }
        }
        let r = chunk.end(&mut self.bytes);
        proof {
            if frames_fit(frames@) {
                lemma_stks_payload_even(frames@);
                assert(self.bytes@ =~= old(self).bytes@ + stks_chunk(frames@));
            }
        }
        r
    }

    /// Produce the complete save image for the given machine state: an
    /// IFF `FORM` container tagged `IFZS` whose first chunk is the
    /// `IFhd`, and whose outer length field counts everything after it.
    #[verifier::rlimit(100)]
    #[verifier::spinoff_prover]
    pub fn write(memory: &Memory, stack: &Stack, pc: usize) -> (r: ZResult<Vec<u8>>)
        requires
            memory.wf(),
            memory@.len() >= 64,
            stack@.wf(),
        ensures
            r.is_err() ==> r == ZResult::<Vec<u8>>::Err(Error::Fatal),
            r.is_ok() == crate::stack::frames_chain(stack@.bytes, stack@.fp, stack@.sp).is_some(),
            r.is_ok() ==> {
                let out = r.unwrap()@;
                let umem = umem_chunk(memory@, memory.sbase());
                &&& out.len() >= 34 + umem.len() as int
                &&& out.subrange(0, 4) == seq![70u8, 79u8, 82u8, 77u8]
                &&& out.len() == 8 + crate::memory::dword_at(out, 4) + (crate::memory::dword_at(
                    out,
                    4,
                ) % 2)
                &&& out.subrange(8, 12) == seq![73u8, 70u8, 90u8, 83u8]
                &&& out.subrange(12, 34) == ifhd_chunk(memory@, pc as int)
                &&& out.subrange(34, 34 + umem.len() as int) == umem
            },
            r.is_ok() ==> {
                let out = r.unwrap()@;
                let umem = umem_chunk(memory@, memory.sbase());
                let ts = crate::stack::frames_chain(stack@.bytes, stack@.fp, stack@.sp).unwrap();
                let stks = frames_chunk_bytes(ts);
                let stks_at = 34 + umem.len() as int;
                &&& out.len() == stks_at + stks.len()
                &&& out.subrange(stks_at, stks_at + stks.len() as int) == stks
            },
    {
        let mut q = Quetzal { bytes: Vec::new() };
        let chunk = Chunk::start([70, 79, 82, 77], &mut q.bytes);
        q.bytes.push(73);  // I
        q.bytes.push(70);  // F
        q.bytes.push(90);  // Z
        q.bytes.push(83);  // S
        proof {
            assert(q.bytes@.subrange(0, 4) =~= seq![70u8, 79u8, 82u8, 77u8]);
            assert(q.bytes@.subrange(8, 12) =~= seq![73u8, 70u8, 90u8, 83u8]);
        }
        let ghost pre_hd = q.bytes@;
        q.write_header(memory, pc)?;
        let ghost after_hd = q.bytes@;
        proof {
            assert(after_hd.subrange(12, 34) =~= ifhd_chunk(memory@, pc as int));
        }
        q.write_umem(memory)?;
        let ghost after_um = q.bytes@;
        proof {
            assert(after_um.subrange(34, 34 + umem_chunk(memory@, memory.sbase()).len() as int)
                =~= umem_chunk(memory@, memory.sbase()));
        }
        let frames = stack.map_frames()?;
        proof {
            crate::stack::lemma_frames_chain_sizes(stack@.bytes, stack@.fp, stack@.sp);
            let fs = crate::stack::frames_chain(stack@.bytes, stack@.fp, stack@.sp).unwrap();
            assert forall|k: int|
                0 <= k < frames@.len() implies (#[trigger] frames@[k]).locals@.len() <= 15
                && frames@[k].eval@.len() <= 0x8000 by {
                assert(crate::stack::frame_matches(frames@[k], fs[k]));
            };
            assert(stack@.fp / 8 + 1 <= 0x2000);
            assert(frames_fit(frames@));
        }
        q.write_stacks(&frames)?;
        let ghost pre_end = q.bytes@;
        let ghost ts = crate::stack::frames_chain(stack@.bytes, stack@.fp, stack@.sp).unwrap();
        let ghost stks = frames_chunk_bytes(ts);
        proof {
            lemma_frames_match_payload(frames@, ts);
            assert(stks_chunk(frames@) =~= stks);
            lemma_stks_payload_even(frames@);
            crate::memory::lemma_wf_bounds(*memory);
            assert(pre_hd =~= seq![
                70u8,
                79u8,
                82u8,
                77u8,
                0u8,
                0u8,
                0u8,
                0u8,
                73u8,
                70u8,
                90u8,
                83u8,
            ]);
            assert(pre_end == pre_hd + ifhd_chunk(memory@, pc as int) + umem_chunk(
                memory@,
                memory.sbase(),
            ) + stks);
        }
        chunk.end(&mut q.bytes)?;
        proof {
            lemma_image_layout(
                memory@,
                memory.sbase() as int,
                pc as int,
                stks,
                pre_end,
                q.bytes@,
            );
        }
        Ok(q.bytes)
    }
}

} // verus!
