//! The decoder of a compressed stream.
//!
//! A stream is a run of blocks, each covering up to `BLOCK_LEN` bytes of
//! output. A block opens with a [`BlockHeader`]. A stored block is copied as
//! it is; any other block holds one quantum, opened by a [`QuantumHeader`]
//! and decoded by the quantum decoder of the block's compressor.
//!
//! The [`Decoder`] reads the headers, copies stored blocks, checks the CRC of
//! each quantum and hands each quantum out as a [`QuantumJob`]: the caller
//! runs the quantum decoder on it and reports back with
//! [`Decoder::finish_quantum`], then calls [`Decoder::decode`] again, until it
//! returns [`Progress::Done`].
use vstd::prelude::*;

use crate::error::{Error, ErrorView, Result};
use crate::header::{
    be24, block_header_spec, law_block_header_bits, quantum_header_spec, BlockHeader,
    BlockHeaderView, QuantumHeader,
};
use crate::message::{crc_mismatch_message, crc_mismatch_text};
use crate::model::Compressor;
use crate::util::copy::{copied, copy_bytes};
use crate::util::crc::{compute_crc, crc_spec};
use crate::BLOCK_LEN;

verus! {

/// A quantum that the quantum decoder of `compressor` must decode: the
/// `compressed_len` bytes of the compressed stream at `compressed_start`
/// decode into the `decompressed_len` bytes of output at
/// `decompressed_start`, which lie `pos_since_reset` bytes after the last
/// dictionary reset.
#[derive(Debug, Clone, Copy, PartialEq, Eq, Structural)]
pub struct QuantumJob {
    /// The compressor that coded the quantum.
    pub compressor: Compressor,
    /// Where the quantum's compressed bytes start.
    pub compressed_start: usize,
    /// The number of compressed bytes of the quantum.
    pub compressed_len: usize,
    /// Where the quantum's output starts.
    pub decompressed_start: usize,
    /// The number of bytes of output of the quantum.
    pub decompressed_len: usize,
    /// The position of the quantum's output since the last dictionary reset.
    pub pos_since_reset: usize,
}

/// How far [`Decoder::decode`] got.
#[derive(Debug, Clone, Copy, PartialEq, Eq, Structural)]
pub enum Progress {
    /// The output is complete; it holds this many bytes.
    Done(usize),
    /// This quantum must be decoded before decoding can go on.
    Quantum(QuantumJob),
}

/// The decoder of a compressed stream.
pub struct Decoder {
    compressed_pos: usize,
    decompressed_pos: usize,
    dictionary_len: usize,
    check_crc: bool,
    header: Option<BlockHeader>,
    reset_pos: Option<usize>,
    pending: Option<QuantumJob>,
}

/// The state of a [`Decoder`].
pub struct DecoderView {
    /// How many bytes of the compressed stream have been read.
    pub compressed_pos: usize,
    /// How many bytes of the output are complete.
    pub decompressed_pos: usize,
    /// Where decoding stops taking new blocks from the stream: the length of
    /// the output.
    pub dictionary_len: usize,
    /// Whether quantum CRCs are checked.
    pub check_crc: bool,
    /// The header of the current block.
    pub header: Option<BlockHeaderView>,
    /// Where the last dictionary reset happened.
    pub reset_pos: Option<usize>,
    /// The quantum handed out and not yet reported back.
    pub pending: Option<QuantumJob>,
}

impl View for Decoder {
    type V = DecoderView;

    closed spec fn view(&self) -> DecoderView {
        DecoderView {
            compressed_pos: self.compressed_pos,
            decompressed_pos: self.decompressed_pos,
            dictionary_len: self.dictionary_len,
            check_crc: self.check_crc,
            header: match self.header {
                Some(h) => Some(h@),
                None => None,
            },
            reset_pos: self.reset_pos,
            pending: self.pending,
        }
    }
}

/// What one step of decoding gives: the error that stops it, if any, and the
/// decoder's state and the output after it.
pub struct StepOutcome {
    /// `Ok` where the step went through.
    pub result: core::result::Result<(), ErrorView>,
    /// The state of the decoder after the step.
    pub state: DecoderView,
    /// The output after the step.
    pub out: Seq<u8>,
}

/// What [`Decoder::decode`] gives: its result, and the decoder's state and
/// the output when it returns.
pub struct RunOutcome {
    /// The progress, or the error that stopped decoding.
    pub result: core::result::Result<Progress, ErrorView>,
    /// The state of the decoder at the end.
    pub state: DecoderView,
    /// The output at the end.
    pub out: Seq<u8>,
}

/// The smaller of two integers.
pub open spec fn min_int(a: int, b: int) -> int {
    if a < b {
        a
    } else {
        b
    }
}

/// The number of output bytes that the next step covers: up to the block
/// limit, the end of the block and the end of the output, whichever comes
/// first.
pub open spec fn step_len(s: DecoderView, dlen: int) -> int {
    min_int(
        min_int(
            s.dictionary_len - s.decompressed_pos,
            BLOCK_LEN - s.decompressed_pos % BLOCK_LEN,
        ),
        dlen - s.decompressed_pos,
    )
}

/// `s` after reading the block header `h`.
pub open spec fn with_block_header(s: DecoderView, h: BlockHeaderView) -> DecoderView {
    DecoderView {
        compressed_pos: (s.compressed_pos + 2) as usize,
        header: Some(h),
        reset_pos: if h.is_reset {
            Some(s.decompressed_pos)
        } else {
            s.reset_pos
        },
        ..s
    }
}

/// A step that went through.
pub open spec fn step_ok(s: DecoderView, out: Seq<u8>) -> StepOutcome {
    StepOutcome { result: Ok(()), state: s, out }
}

/// A step that stopped on `e`.
pub open spec fn step_err(e: ErrorView, s: DecoderView, out: Seq<u8>) -> StepOutcome {
    StepOutcome { result: Err(e), state: s, out }
}

/// The position since the last dictionary reset of the output position.
pub open spec fn pos_since_reset(s: DecoderView) -> int {
    match s.reset_pos {
        Some(r) => s.decompressed_pos - r,
        None => s.decompressed_pos as int,
    }
}

/// The step of a quantum block, once its header has been read: reads the
/// quantum header, checks the quantum's length and CRC, and hands out the
/// quantum. A quantum stored uncompressed is not supported and gives
/// `DecompressionFailed`.
pub open spec fn quantum_step(
    s: DecoderView,
    h: BlockHeaderView,
    c: Seq<u8>,
    raw: int,
) -> (core::result::Result<(), ErrorView>, DecoderView) {
    match quantum_header_spec(c.skip(s.compressed_pos as int), h.has_quantum_crcs, raw as usize) {
        Err(e) => (Err(e), s),
        Ok((q, off)) => {
            let s2 = DecoderView { compressed_pos: (s.compressed_pos + off) as usize, ..s };
            let len = q.compressed_len;
            let start = s2.compressed_pos as int;
            if len > raw {
                (Err(ErrorView::InvalidQuantumLength(len)), s2)
            } else if len > c.len() - start {
                (Err(ErrorView::InvalidQuantumLength(len)), s2)
            } else if s.check_crc && len > 0 && h.has_quantum_crcs && q.crc.unwrap() != crc_spec(
                c.subrange(start, start + len),
            ) {
                (
                    Err(
                        ErrorView::InvalidCRC(
                            crc_mismatch_text(
                                q.crc.unwrap(),
                                crc_spec(c.subrange(start, start + len)),
                            ),
                        ),
                    ),
                    s2,
                )
            } else if len == raw {
                (Err(ErrorView::DecompressionFailed), s2)
            } else {
                (
                    Ok(()),
                    DecoderView {
                        pending: Some(
                            QuantumJob {
                                compressor: h.compressor,
                                compressed_start: s2.compressed_pos,
                                compressed_len: len,
                                decompressed_start: s.decompressed_pos,
                                decompressed_len: raw as usize,
                                pos_since_reset: pos_since_reset(s) as usize,
                            },
                        ),
                        ..s2
                    },
                )
            }
        },
    }
}

/// The step of a block once its header has been read: a stored block is
/// copied, where the stream holds enough bytes (else nothing happens); a
/// quantum block takes a [`quantum_step`].
pub open spec fn block_step(s: DecoderView, c: Seq<u8>, d: Seq<u8>, raw: int) -> StepOutcome {
    let h = s.header.unwrap();
    if h.is_memcpy {
        if raw > c.len() - s.compressed_pos {
            step_ok(s, d)
        } else {
            step_ok(
                DecoderView {
                    compressed_pos: (s.compressed_pos + raw) as usize,
                    decompressed_pos: (s.decompressed_pos + raw) as usize,
                    ..s
                },
                copied(d, s.decompressed_pos as int, c, s.compressed_pos as int, raw),
            )
        }
    } else {
        let (result, state) = quantum_step(s, h, c, raw);
        StepOutcome { result, state, out: d }
    }
}

/// One step of decoding from state `s`, with compressed stream `c` and output
/// `d`: at the start of a block, its header is read first.
#[verifier::opaque]
pub open spec fn step(s: DecoderView, c: Seq<u8>, d: Seq<u8>) -> StepOutcome {
    let raw = step_len(s, d.len() as int);
    if s.decompressed_pos % BLOCK_LEN == 0 {
        match block_header_spec(c.skip(s.compressed_pos as int)) {
            Err(e) => step_err(e, s, d),
            Ok(h) => block_step(with_block_header(s, h), c, d, raw),
        }
    } else {
        block_step(s, c, d, raw)
    }
}

/// The states from which [`Decoder::decode`] can run, for a stream of `clen`
/// bytes and an output of `dlen`: no quantum is pending, blocks are taken up
/// to at least the end of the output, and until the output is complete each
/// step starts at a block boundary.
pub open spec fn ready(s: DecoderView, clen: nat, dlen: nat) -> bool {
    &&& clen <= usize::MAX
    &&& dlen <= usize::MAX
    &&& s.pending is None
    &&& s.dictionary_len >= dlen
    &&& s.compressed_pos <= clen
    &&& (s.reset_pos matches Some(r) ==> r <= s.decompressed_pos)
    &&& s.decompressed_pos < dlen ==> s.decompressed_pos % BLOCK_LEN == 0
}

/// The states in which a quantum has been handed out and not reported back:
/// the quantum starts where reading stopped, at a block boundary, and covers
/// the whole block, or the rest of the output where that is shorter.
pub open spec fn awaiting(s: DecoderView, clen: nat, dlen: nat) -> bool {
    &&& s.pending matches Some(job) && {
        &&& job.compressed_start == s.compressed_pos
        &&& job.compressed_start + job.compressed_len <= clen
        &&& job.decompressed_start == s.decompressed_pos
        &&& 0 < job.decompressed_len
        &&& job.decompressed_len == min_int(BLOCK_LEN as int, dlen - job.decompressed_start)
        &&& job.pos_since_reset == pos_since_reset(s)
    }
    &&& s.decompressed_pos % BLOCK_LEN == 0
    &&& s.dictionary_len >= dlen
    &&& (s.reset_pos matches Some(r) ==> r <= s.decompressed_pos)
}

/// The state after the quantum decoder reported reading the whole pending
/// quantum.
pub open spec fn finished(s: DecoderView) -> DecoderView {
    let job = s.pending.unwrap();
    DecoderView {
        compressed_pos: (s.compressed_pos + job.compressed_len) as usize,
        decompressed_pos: (s.decompressed_pos + job.decompressed_len) as usize,
        pending: None,
        ..s
    }
}

/// From a ready state before the end of the output, a step that goes through
/// and hands no quantum out reads at least one byte of the stream, and the
/// state after it is ready again or awaits the quantum.
pub proof fn lemma_step_progress(s: DecoderView, c: Seq<u8>, d: Seq<u8>)
    requires
        ready(s, c.len(), d.len()),
        s.decompressed_pos < d.len(),
        s.compressed_pos < c.len(),
    ensures
        step(s, c, d).out.len() == d.len(),
        step(s, c, d).result is Ok ==> {
            let t = step(s, c, d).state;
            &&& t.pending is None ==> t.compressed_pos > s.compressed_pos && ready(
                t,
                c.len(),
                d.len(),
            )
            &&& t.pending is Some ==> awaiting(t, c.len(), d.len())
        },
{
    reveal(step);
    let raw = step_len(s, d.len() as int);
    let dlen = d.len() as int;
    let pos = s.decompressed_pos as int;
    assert(pos % (BLOCK_LEN as int) == 0);
    assert(raw == 0 || raw == BLOCK_LEN || pos + raw == dlen);
    assert((pos + BLOCK_LEN) % (BLOCK_LEN as int) == 0);
    match block_header_spec(c.skip(s.compressed_pos as int)) {
        Err(e) => {},
        Ok(h) => {
            let s1 = with_block_header(s, h);
            assert(s1.compressed_pos == s.compressed_pos + 2);
            if h.is_memcpy {
            } else {
                lemma_quantum_header_offset(
                    c.skip(s1.compressed_pos as int),
                    h.has_quantum_crcs,
                    raw as usize,
                );
            }
        },
    }
}

/// A quantum header that reads takes 3 or 6 bytes, no more than the block
/// holds.
proof fn lemma_quantum_header_offset(block: Seq<u8>, has_quantum_crcs: bool, chunk_size: usize)
    ensures
        quantum_header_spec(block, has_quantum_crcs, chunk_size) matches Ok((q, off)) ==> (off == 3
            || off == 6) && off <= block.len(),
{
}

/// What decoding from state `s` gives, with compressed stream `c` and output
/// `d`: steps run until the output is complete, a step fails, or a quantum is
/// handed out. Decoding stops with `InvalidInput` where the stream ends
/// before the output is complete.
pub open spec fn run(s: DecoderView, c: Seq<u8>, d: Seq<u8>) -> RunOutcome
    decreases c.len() - s.compressed_pos,
    when ready(s, c.len(), d.len())
{
    if s.decompressed_pos < d.len() {
        if c.len() <= s.compressed_pos {
            RunOutcome {
                result: Err(ErrorView::InvalidInput("compressed data is too short"@)),
                state: s,
                out: d,
            }
        } else {
            let o = step(s, c, d);
            match o.result {
                Err(e) => RunOutcome { result: Err(e), state: o.state, out: o.out },
                Ok(()) => match o.state.pending {
                    Some(job) => RunOutcome {
                        result: Ok(Progress::Quantum(job)),
                        state: o.state,
                        out: o.out,
                    },
                    None => {
                        proof {
                            lemma_step_progress(s, c, d);
                        }
                        run(o.state, c, o.out)
                    },
                },
            }
        }
    } else if s.decompressed_pos != d.len() {
        RunOutcome { result: Err(ErrorView::DecompressionFailed), state: s, out: d }
    } else {
        RunOutcome { result: Ok(Progress::Done(s.decompressed_pos as usize)), state: s, out: d }
    }
}

/// Decoding from a ready state before the end of the output stops where the
/// stream is exhausted, and otherwise is one step followed, where that step
/// neither fails nor hands a quantum out, by decoding from the state after it.
proof fn lemma_run_unfold(s: DecoderView, c: Seq<u8>, d: Seq<u8>)
    requires
        ready(s, c.len(), d.len()),
        s.decompressed_pos < d.len(),
    ensures
        c.len() <= s.compressed_pos ==> run(s, c, d) == (RunOutcome {
            result: Err(ErrorView::InvalidInput("compressed data is too short"@)),
            state: s,
            out: d,
        }),
        c.len() > s.compressed_pos ==> {
            let o = step(s, c, d);
            &&& o.result matches Err(e) ==> run(s, c, d) == (RunOutcome {
                result: Err(e),
                state: o.state,
                out: o.out,
            })
            &&& (o.result is Ok && o.state.pending is Some) ==> run(s, c, d) == (RunOutcome {
                result: Ok(Progress::Quantum(o.state.pending.unwrap())),
                state: o.state,
                out: o.out,
            })
            &&& (o.result is Ok && o.state.pending is None) ==> run(s, c, d) == run(
                o.state,
                c,
                o.out,
            )
        },
{
    if c.len() > s.compressed_pos {
        lemma_step_progress(s, c, d);
    }
}

/// Decoding from a ready state at or past the end of the output is done
/// exactly at its end.
proof fn lemma_run_end(s: DecoderView, c: Seq<u8>, d: Seq<u8>)
    requires
        ready(s, c.len(), d.len()),
        s.decompressed_pos >= d.len(),
    ensures
        s.decompressed_pos != d.len() ==> run(s, c, d) == (RunOutcome {
            result: Err(ErrorView::DecompressionFailed),
            state: s,
            out: d,
        }),
        s.decompressed_pos == d.len() ==> run(s, c, d) == (RunOutcome {
            result: Ok(Progress::Done(s.decompressed_pos as usize)),
            state: s,
            out: d,
        }),
{
}

/// A step from a ready state before the end of the output keeps the length of
/// the output and every byte before the output position, and does not move the
/// output position back.
proof fn lemma_step_frame(s: DecoderView, c: Seq<u8>, d: Seq<u8>)
    requires
        ready(s, c.len(), d.len()),
        s.decompressed_pos < d.len(),
        s.compressed_pos < c.len(),
    ensures
        step(s, c, d).out.len() == d.len(),
        step(s, c, d).state.decompressed_pos >= s.decompressed_pos,
        step(s, c, d).state.check_crc == s.check_crc,
        forall|i: int| 0 <= i < s.decompressed_pos ==> #[trigger] step(s, c, d).out[i] == d[i],
{
    reveal(step);
}

/// A quantum that a step from a ready state hands out, with CRCs checked and
/// carried by its block, has compressed bytes whose CRC is the one stored in
/// the three bytes before them.
proof fn lemma_step_crc(s: DecoderView, c: Seq<u8>, d: Seq<u8>)
    requires
        ready(s, c.len(), d.len()),
        s.decompressed_pos < d.len(),
        s.compressed_pos < c.len(),
        step(s, c, d).result is Ok,
        step(s, c, d).state.pending is Some,
    ensures
        ({
            let t = step(s, c, d).state;
            let job = t.pending.unwrap();
            let start = job.compressed_start as int;
            (s.check_crc && t.header.unwrap().has_quantum_crcs && job.compressed_len > 0) ==> (3
                <= start && crc_spec(c.subrange(start, start + job.compressed_len)) == be24(
                c[start - 3],
                c[start - 2],
                c[start - 1],
            ))
        }),
{
    reveal(step);
    let raw = step_len(s, d.len() as int);
    match block_header_spec(c.skip(s.compressed_pos as int)) {
        Err(e) => {},
        Ok(h) => {
            let s1 = with_block_header(s, h);
            if !h.is_memcpy {
                let block = c.skip(s1.compressed_pos as int);
                match quantum_header_spec(block, h.has_quantum_crcs, raw as usize) {
                    Err(e) => {},
                    Ok((q, off)) => {
                        let start = s1.compressed_pos + off;
                        if h.has_quantum_crcs && q.compressed_len > 0 {
                            assert(off == 6);
                            assert(c[start - 3] == block[3]);
                            assert(c[start - 2] == block[4]);
                            assert(c[start - 1] == block[5]);
                        }
                    },
                }
            }
        },
    }
}

/// A stored block is copied as it is: from a ready state at a block
/// boundary, where the block header marks a stored block and the stream holds
/// the bytes that the step covers, the step copies them, right after the
/// header, into the output at the output position, and both positions move
/// past them.
pub proof fn law_stored_block_is_copied(s: DecoderView, c: Seq<u8>, d: Seq<u8>)
    requires
        ready(s, c.len(), d.len()),
        s.decompressed_pos < d.len(),
        s.compressed_pos < c.len(),
        block_header_spec(c.skip(s.compressed_pos as int)) matches Ok(h) && h.is_memcpy,
        s.compressed_pos + 2 + step_len(s, d.len() as int) <= c.len(),
    ensures
        ({
            let o = step(s, c, d);
            let raw = step_len(s, d.len() as int);
            &&& raw == min_int(
                BLOCK_LEN - s.decompressed_pos % BLOCK_LEN,
                d.len() - s.decompressed_pos,
            )
            &&& o.result is Ok
            &&& o.state.pending is None
            &&& o.state.decompressed_pos == s.decompressed_pos + raw
            &&& o.state.compressed_pos == s.compressed_pos + 2 + raw
            &&& o.state.dictionary_len == s.dictionary_len
            &&& o.state.check_crc == s.check_crc
            &&& (o.state.reset_pos matches Some(r) ==> r <= s.decompressed_pos)
            &&& o.out.len() == d.len()
            &&& forall|i: int|
                0 <= i < raw ==> #[trigger] o.out[s.decompressed_pos + i] == c[s.compressed_pos
                    + 2 + i]
            &&& forall|i: int|
                0 <= i < d.len() && !(s.decompressed_pos <= i < s.decompressed_pos + raw)
                    ==> #[trigger] o.out[i] == d[i]
        }),
{
    reveal(step);
}

/// Decoding never changes the output before the position where it starts,
/// which holds the dictionary, nor the output's length.
pub proof fn law_decode_keeps_dictionary(s: DecoderView, c: Seq<u8>, d: Seq<u8>)
    requires
        ready(s, c.len(), d.len()),
    ensures
        run(s, c, d).out.len() == d.len(),
        forall|i: int| 0 <= i < s.decompressed_pos ==> #[trigger] run(s, c, d).out[i] == d[i],
    decreases c.len() - s.compressed_pos,
{
    if s.decompressed_pos < d.len() {
        lemma_run_unfold(s, c, d);
        if c.len() > s.compressed_pos {
            lemma_step_progress(s, c, d);
            lemma_step_frame(s, c, d);
            let o = step(s, c, d);
            if o.result is Ok && o.state.pending is None {
                law_decode_keeps_dictionary(o.state, c, o.out);
            }
        }
    } else {
        lemma_run_end(s, c, d);
    }
}

/// With CRC checking on, every quantum that decoding hands out from a block
/// that carries CRCs has compressed bytes whose CRC is the one stored in the
/// three bytes before them: a corrupted quantum is never handed to a quantum
/// decoder.
pub proof fn law_decode_checks_crc(s: DecoderView, c: Seq<u8>, d: Seq<u8>)
    requires
        ready(s, c.len(), d.len()),
        s.check_crc,
    ensures
        ({
            let o = run(s, c, d);
            o.result matches Ok(Progress::Quantum(job)) ==> {
                let start = job.compressed_start as int;
                (o.state.header.unwrap().has_quantum_crcs && job.compressed_len > 0) ==> (3
                    <= start && crc_spec(c.subrange(start, start + job.compressed_len)) == be24(
                    c[start - 3],
                    c[start - 2],
                    c[start - 1],
                ))
            }
        }),
    decreases c.len() - s.compressed_pos,
{
    if s.decompressed_pos < d.len() {
        lemma_run_unfold(s, c, d);
        if c.len() > s.compressed_pos {
            lemma_step_progress(s, c, d);
            lemma_step_frame(s, c, d);
            let o = step(s, c, d);
            if o.result is Ok {
                if o.state.pending is None {
                    law_decode_checks_crc(o.state, c, o.out);
                } else {
                    lemma_step_crc(s, c, d);
                }
            }
        }
    } else {
        lemma_run_end(s, c, d);
    }
}

/// Once the quantum decoder reports reading the whole pending quantum, the
/// decoder is ready to decode on.
pub proof fn law_finished_is_ready(s: DecoderView, clen: nat, dlen: nat)
    requires
        awaiting(s, clen, dlen),
        clen <= usize::MAX,
        dlen <= usize::MAX,
    ensures
        ready(finished(s), clen, dlen),
{
    let job = s.pending.unwrap();
    let pos = s.decompressed_pos as int;
    assert((pos + BLOCK_LEN) % (BLOCK_LEN as int) == 0);
}

/// Reading a block header sets the reset position to the output position
/// where the header's reset flag (bit 7 of its first byte) is set, and leaves
/// it as it was where the flag is clear, whatever else the step does: a reset
/// stays in force until the next reset block.
pub proof fn law_block_reset(s: DecoderView, c: Seq<u8>, d: Seq<u8>)
    requires
        ready(s, c.len(), d.len()),
        s.decompressed_pos < d.len(),
        s.compressed_pos < c.len(),
    ensures
        step(s, c, d).state.reset_pos == if block_header_spec(c.skip(s.compressed_pos as int)) is Ok
            && c[s.compressed_pos as int] >= 128 {
            Some(s.decompressed_pos)
        } else {
            s.reset_pos
        },
{
    reveal(step);
    let block = c.skip(s.compressed_pos as int);
    law_block_header_bits(block);
    assert(block[0] == c[s.compressed_pos as int]);
}

/// Decoding from a ready state does not move the output position back; a
/// quantum that it hands out is pending and awaits the quantum decoder; and
/// the reset position stays where it was or moves to a block boundary that
/// decoding passed.
proof fn lemma_run_facts(s: DecoderView, c: Seq<u8>, d: Seq<u8>)
    requires
        ready(s, c.len(), d.len()),
    ensures
        ({
            let o = run(s, c, d);
            &&& o.state.decompressed_pos >= s.decompressed_pos
            &&& (o.state.reset_pos == s.reset_pos || (o.state.reset_pos matches Some(r) && (
            s.decompressed_pos <= r <= o.state.decompressed_pos && r % BLOCK_LEN == 0)))
            &&& (o.result matches Ok(Progress::Quantum(job)) ==> (awaiting(
                o.state,
                c.len(),
                d.len(),
            ) && o.state.pending == Some(job)))
        }),
    decreases c.len() - s.compressed_pos,
{
    if s.decompressed_pos < d.len() {
        lemma_run_unfold(s, c, d);
        if c.len() > s.compressed_pos {
            lemma_step_progress(s, c, d);
            lemma_step_frame(s, c, d);
            law_block_reset(s, c, d);
            let o = step(s, c, d);
            if o.result is Ok && o.state.pending is None {
                lemma_run_facts(o.state, c, o.out);
            }
        }
    } else {
        lemma_run_end(s, c, d);
    }
}

/// A quantum that decoding hands out starts at a block boundary and covers
/// exactly the rest of its block, or the rest of the output where that is
/// shorter: the length that a stored block at that position would copy. It
/// never crosses a block boundary.
pub proof fn law_quantum_covers_block(s: DecoderView, c: Seq<u8>, d: Seq<u8>)
    requires
        ready(s, c.len(), d.len()),
    ensures
        run(s, c, d).result matches Ok(Progress::Quantum(job)) ==> ({
            &&& job.decompressed_start >= s.decompressed_pos
            &&& job.decompressed_start % BLOCK_LEN == 0
            &&& job.decompressed_len == min_int(
                BLOCK_LEN - job.decompressed_start % BLOCK_LEN,
                d.len() - job.decompressed_start,
            )
        }),
{
    lemma_run_facts(s, c, d);
}

/// A dictionary reset stays in force until the next reset block: decoding
/// leaves the reset position as it was or moves it to a block boundary that
/// it passed, and a quantum that it hands out lies `pos_since_reset` bytes
/// after the reset position in force (after the start of the output where
/// no reset happened).
pub proof fn law_reset_position(s: DecoderView, c: Seq<u8>, d: Seq<u8>)
    requires
        ready(s, c.len(), d.len()),
    ensures
        ({
            let o = run(s, c, d);
            &&& (o.state.reset_pos == s.reset_pos || (o.state.reset_pos matches Some(r) && (
            s.decompressed_pos <= r <= o.state.decompressed_pos && r % BLOCK_LEN == 0)))
            &&& (o.result matches Ok(Progress::Quantum(job)) ==> (job.decompressed_start
                == o.state.decompressed_pos && job.pos_since_reset == job.decompressed_start - (
            match o.state.reset_pos {
                Some(r) => r as int,
                None => 0,
            })))
        }),
{
    lemma_run_facts(s, c, d);
}

/// The stream that stores `data` uncompressed: one stored Kraken block per
/// `BLOCK_LEN` bytes of it, each a two-byte header followed by the bytes.
pub open spec fn stored_stream(data: Seq<u8>) -> Seq<u8>
    decreases data.len(),
{
    if data.len() == 0 {
        seq![]
    } else if data.len() <= BLOCK_LEN {
        seq![0x40u8, 0x06u8] + data
    } else {
        seq![0x40u8, 0x06u8] + data.take(BLOCK_LEN as int) + stored_stream(
            data.skip(BLOCK_LEN as int),
        )
    }
}

/// A stored stream is at least as long as the data that it stores.
proof fn lemma_stored_stream_len(data: Seq<u8>)
    ensures
        stored_stream(data).len() >= data.len(),
    decreases data.len(),
{
    if data.len() > BLOCK_LEN {
        lemma_stored_stream_len(data.skip(BLOCK_LEN as int));
    }
}

/// The first block of a stored stream: its header, then the first
/// `min(len, BLOCK_LEN)` bytes of the data, then the stream of the rest.
proof fn lemma_stored_stream_head(data: Seq<u8>)
    requires
        data.len() > 0,
    ensures
        ({
            let c = stored_stream(data);
            let m = min_int(data.len() as int, BLOCK_LEN as int);
            &&& c.len() >= 2 + m
            &&& c[0] == 0x40u8
            &&& c[1] == 0x06u8
            &&& forall|i: int| 0 <= i < m ==> #[trigger] c[2 + i] == data[i]
            &&& c.skip(2 + m) == stored_stream(data.skip(m))
        }),
{
    let c = stored_stream(data);
    let m = min_int(data.len() as int, BLOCK_LEN as int);
    if data.len() <= BLOCK_LEN {
        assert(data.skip(m) =~= Seq::<u8>::empty());
        assert(c.skip(2 + m) =~= Seq::<u8>::empty());
    } else {
        let head = seq![0x40u8, 0x06u8] + data.take(BLOCK_LEN as int);
        assert(c.skip(2 + m) =~= stored_stream(data.skip(BLOCK_LEN as int)));
        assert forall|i: int| 0 <= i < m implies #[trigger] c[2 + i] == data[i] by {
            assert(c[2 + i] == head[2 + i]);
        }
    }
}

/// Decoding the rest of a stored stream, from a state that has copied the
/// first `s.decompressed_pos` bytes of `data`, completes the output with the
/// rest of `data`.
proof fn lemma_stored_stream_run(data: Seq<u8>, s: DecoderView, c: Seq<u8>, d: Seq<u8>)
    requires
        c.len() <= usize::MAX,
        d.len() == data.len(),
        data.len() <= usize::MAX,
        s.pending is None,
        s.dictionary_len >= data.len(),
        s.decompressed_pos <= data.len(),
        s.decompressed_pos < data.len() ==> s.decompressed_pos % BLOCK_LEN == 0,
        s.compressed_pos <= c.len(),
        s.reset_pos matches Some(r) ==> r <= s.decompressed_pos,
        c.skip(s.compressed_pos as int) == stored_stream(data.skip(s.decompressed_pos as int)),
        forall|i: int| 0 <= i < s.decompressed_pos ==> #[trigger] d[i] == data[i],
    ensures
        run(s, c, d).result == Ok::<Progress, ErrorView>(Progress::Done(data.len() as usize)),
        run(s, c, d).out == data,
    decreases data.len() - s.decompressed_pos,
{
    let n = data.len() as int;
    let pos = s.decompressed_pos as int;
    let cpos = s.compressed_pos as int;
    assert(ready(s, c.len(), d.len()));
    if pos < n {
        let rest = data.skip(pos);
        lemma_stored_stream_head(rest);
        let m = min_int(rest.len() as int, BLOCK_LEN as int);
        let block = c.skip(cpos);
        assert(block == stored_stream(rest));
        assert(c.len() > cpos);
        assert((0x40u8 >> 4u8) & 3u8 == 0u8) by (bit_vector);
        assert((0x40u8 >> 6u8) & 1u8 == 1u8) by (bit_vector);
        assert((0x40u8 >> 7u8) & 1u8 == 0u8) by (bit_vector);
        assert(0x06u8 & 0x7Fu8 == 6u8) by (bit_vector);
        assert((0x06u8 >> 7u8) & 1u8 == 0u8) by (bit_vector);
        assert(block[0] == 0x40u8 && block[1] == 0x06u8);
        assert(step_len(s, d.len() as int) == m);
        law_stored_block_is_copied(s, c, d);
        lemma_run_unfold(s, c, d);
        let o = step(s, c, d);
        let t = o.state;
        assert(c.skip(t.compressed_pos as int) =~= block.skip(2 + m));
        assert(rest.skip(m) =~= data.skip(t.decompressed_pos as int));
        assert forall|i: int| 0 <= i < t.decompressed_pos implies #[trigger] o.out[i] == data[i] by {
            if i >= pos {
                assert(o.out[pos + (i - pos)] == c[cpos + 2 + (i - pos)]);
                assert(c[cpos + 2 + (i - pos)] == block[2 + (i - pos)]);
                assert(rest[i - pos] == data[i]);
            }
        }
        assert((pos + BLOCK_LEN) % (BLOCK_LEN as int) == 0);
        lemma_stored_stream_run(data, t, c, o.out);
    } else {
        lemma_run_end(s, c, d);
        assert(d =~= data);
    }
}

/// A stream of stored blocks decodes to the data that it stores: decoding
/// `stored_stream(data)` from the start, with no dictionary, completes an
/// output of `data.len()` bytes and leaves it equal to `data`.
pub proof fn law_stored_stream_round_trip(data: Seq<u8>, d: Seq<u8>, check_crc: bool)
    requires
        d.len() == data.len(),
        stored_stream(data).len() <= usize::MAX,
    ensures
        ({
            let s = DecoderView {
                compressed_pos: 0,
                decompressed_pos: 0,
                dictionary_len: data.len() as usize,
                check_crc,
                header: None,
                reset_pos: None,
                pending: None,
            };
            let o = run(s, stored_stream(data), d);
            &&& o.result == Ok::<Progress, ErrorView>(Progress::Done(data.len() as usize))
            &&& o.out == data
        }),
{
    let c = stored_stream(data);
    if data.len() > 0 {
        lemma_stored_stream_head(data);
    }
    lemma_stored_stream_len(data);
    let s = DecoderView {
        compressed_pos: 0,
        decompressed_pos: 0,
        dictionary_len: data.len() as usize,
        check_crc,
        header: None,
        reset_pos: None,
        pending: None,
    };
    assert(c.skip(0) =~= c);
    assert(data.skip(0) =~= data);
    lemma_stored_stream_run(data, s, c, d);
}

/// A stream of stored blocks decodes after a dictionary: from the start
/// state that `start_decompress` gives for an output whose first
/// `dictionary_len` bytes (a whole number of blocks) hold a dictionary,
/// decoding `stored_stream(data)` completes the output, leaves the dictionary
/// as it was and puts `data` after it.
pub proof fn law_stored_stream_after_dictionary(
    data: Seq<u8>,
    d: Seq<u8>,
    dictionary_len: usize,
    check_crc: bool,
)
    requires
        d.len() == dictionary_len + data.len(),
        d.len() <= usize::MAX,
        dictionary_len % BLOCK_LEN == 0,
        stored_stream(data).len() <= usize::MAX,
    ensures
        ({
            let s = DecoderView {
                compressed_pos: 0,
                decompressed_pos: dictionary_len,
                dictionary_len: d.len() as usize,
                check_crc,
                header: None,
                reset_pos: None,
                pending: None,
            };
            let o = run(s, stored_stream(data), d);
            &&& o.result == Ok::<Progress, ErrorView>(Progress::Done(d.len() as usize))
            &&& o.out == d.take(dictionary_len as int) + data
        }),
{
    let c = stored_stream(data);
    let k = dictionary_len as int;
    let full = d.take(k) + data;
    assert(full.skip(k) =~= data);
    assert(c.skip(0) =~= c);
    let s = DecoderView {
        compressed_pos: 0,
        decompressed_pos: dictionary_len,
        dictionary_len: d.len() as usize,
        check_crc,
        header: None,
        reset_pos: None,
        pending: None,
    };
    assert forall|i: int| 0 <= i < k implies #[trigger] d[i] == full[i] by {}
    lemma_stored_stream_run(full, s, c, d);
}

impl Decoder {
    /// A decoder that starts writing output at `decode_start_offset`, after
    /// any dictionary, and takes blocks from the stream up to `dictionary_len`,
    /// the end of the output; `check_crc` selects whether quantum CRCs are
    /// checked.
    pub fn new(decode_start_offset: usize, dictionary_len: usize, check_crc: bool) -> (r: Self)
        ensures
            r@ == (DecoderView {
                compressed_pos: 0,
                decompressed_pos: decode_start_offset,
                dictionary_len,
                check_crc,
                header: None,
                reset_pos: None,
                pending: None,
            }),
    {
        Self {
            compressed_pos: 0,
            decompressed_pos: decode_start_offset,
            dictionary_len,
            check_crc,
            header: None,
            reset_pos: None,
            pending: None,
        }
    }

    /// Decodes `compressed` into `decompressed` until the output is complete,
    /// a step fails, or a quantum must be decoded: see [`run`].
    pub fn decode(&mut self, compressed: &[u8], decompressed: &mut [u8]) -> (r: Result<Progress>)
        requires
            ready(old(self)@, compressed@.len(), old(decompressed)@.len()),
        ensures
            ({
                let o = run(old(self)@, compressed@, old(decompressed)@);
                &&& final(self)@ == o.state
                &&& final(decompressed)@ == o.out
                &&& match o.result {
                    Ok(p) => r == Ok::<Progress, Error>(p),
                    Err(e) => r matches Err(err) && err@ == e,
                }
            }),
            r matches Ok(Progress::Done(n)) ==> n == old(decompressed)@.len(),
            r matches Ok(Progress::Quantum(job)) ==> awaiting(
                final(self)@,
                compressed@.len(),
                old(decompressed)@.len(),
            ) && final(self)@.pending == Some(job),
    {
        let ghost c = compressed@;
        let ghost d0 = decompressed@;
        let ghost total = run(self@, c, d0);
        let clen = compressed.len();
        let dlen = decompressed.len();
        while self.decompressed_pos < dlen
            invariant
                c == compressed@,
                clen == c.len(),
                dlen == decompressed@.len(),
                dlen == d0.len(),
                d0 == old(decompressed)@,
                ready(old(self)@, c.len(), d0.len()),
                total == run(old(self)@, c, d0),
                ready(self@, c.len(), dlen as nat),
                run(self@, c, decompressed@) == total,
            decreases clen - self.compressed_pos,
        {
            proof {
                lemma_run_unfold(self@, c, decompressed@);
            }
            if clen <= self.compressed_pos {
                return Err(Error::InvalidInput("compressed data is too short"));
            }
            proof {
                lemma_step_progress(self@, c, decompressed@);
            }
            let r = self.decode_step(compressed, decompressed);
            match r {
                Err(e) => {
                    return Err(e);
                },
                Ok(()) => {},
            }
            if let Some(job) = self.pending {
                return Ok(Progress::Quantum(job));
            }
        }
        proof {
            lemma_run_end(self@, c, decompressed@);
        }
        if self.decompressed_pos != dlen {
            return Err(Error::DecompressionFailed);
        }
        Ok(Progress::Done(self.decompressed_pos))
    }

    /// Reports that the quantum decoder read `read_bytes` compressed bytes of
    /// the pending quantum. It must have read the whole quantum; then both
    /// positions move past the quantum.
    pub fn finish_quantum(&mut self, read_bytes: usize) -> (r: Result<()>)
        requires
            old(self)@.pending is Some,
            old(self)@.compressed_pos + old(self)@.pending.unwrap().compressed_len <= usize::MAX,
            old(self)@.decompressed_pos + old(self)@.pending.unwrap().decompressed_len
                <= usize::MAX,
        ensures
            read_bytes == old(self)@.pending.unwrap().compressed_len ==> r is Ok && final(self)@
                == finished(old(self)@),
            read_bytes != old(self)@.pending.unwrap().compressed_len ==> final(self)@ == old(
                self,
            )@ && (r matches Err(e) && e@ == ErrorView::DecompressionError(
                "Decompressed data does not match header"@,
            )),
    {
        let job = match self.pending {
            Some(job) => job,
            None => {
                return Err(Error::DecompressionFailed);
            },
        };
        if read_bytes != job.compressed_len {
            return Err(
                Error::DecompressionError("Decompressed data does not match header".to_owned()),
            );
        }
        self.compressed_pos = self.compressed_pos + read_bytes;
        self.decompressed_pos = self.decompressed_pos + job.decompressed_len;
        self.pending = None;
        Ok(())
    }

    /// One step of decoding: see [`step`].
    fn decode_step(&mut self, compressed: &[u8], decompressed: &mut [u8]) -> (r: Result<()>)
        requires
            ready(old(self)@, compressed@.len(), old(decompressed)@.len()),
            old(self)@.decompressed_pos < old(decompressed)@.len(),
            old(self)@.compressed_pos < compressed@.len(),
        ensures
            ({
                let o = step(old(self)@, compressed@, old(decompressed)@);
                &&& final(self)@ == o.state
                &&& final(decompressed)@ == o.out
                &&& match o.result {
                    Ok(()) => r is Ok,
                    Err(e) => r matches Err(err) && err@ == e,
                }
            }),
    {
        reveal(step);
        let dlen = decompressed.len();
        let mut raw_bytes_to_go = self.dictionary_len - self.decompressed_pos;
        let chunk_pos = self.decompressed_pos % BLOCK_LEN;
        let raw_len_left = dlen - self.decompressed_pos;
        if BLOCK_LEN - chunk_pos < raw_bytes_to_go {
            raw_bytes_to_go = BLOCK_LEN - chunk_pos;
        }
        if raw_len_left < raw_bytes_to_go {
            raw_bytes_to_go = raw_len_left;
        }
        assert(raw_bytes_to_go == step_len(old(self)@, dlen as int));
        if chunk_pos == 0 {
            let (_, rest) = compressed.split_at(self.compressed_pos);
            assert(rest@ == compressed@.skip(self.compressed_pos as int));
            let (header, offset) = match BlockHeader::try_from_block(rest) {
                Ok(p) => p,
                Err(e) => {
                    return Err(e);
                },
            };
            if header.is_reset() {
                self.reset_pos = Some(self.decompressed_pos);
            }
            self.header = Some(header);
            self.compressed_pos = self.compressed_pos + offset;
        }
        self.block_stage(compressed, decompressed, raw_bytes_to_go)
    }

    /// The step of a block once its header has been read: see
    /// [`block_step`].
    fn block_stage(&mut self, compressed: &[u8], decompressed: &mut [u8], raw_bytes_to_go: usize)
        -> (r: Result<()>)
        requires
            old(self)@.header is Some,
            old(self)@.compressed_pos <= compressed@.len(),
            old(self)@.decompressed_pos + raw_bytes_to_go <= old(decompressed)@.len(),
            old(self)@.reset_pos matches Some(r) ==> r <= old(self)@.decompressed_pos,
        ensures
            ({
                let o = block_step(old(self)@, compressed@, old(decompressed)@, raw_bytes_to_go as int);
                &&& final(self)@ == o.state
                &&& final(decompressed)@ == o.out
                &&& match o.result {
                    Ok(()) => r is Ok,
                    Err(e) => r matches Err(err) && err@ == e,
                }
            }),
    {
        let header = match self.header {
            Some(h) => h,
            None => {
                return Err(Error::DecompressionFailed);
            },
        };
        if header.is_memcpy() {
            self.copy_one(compressed, decompressed, raw_bytes_to_go);
            return Ok(());
        }
        self.quantum_stage(compressed, raw_bytes_to_go, header)
    }

    /// The step of a quantum block once its header has been read: see
    /// [`quantum_step`].
    fn quantum_stage(&mut self, compressed: &[u8], raw_bytes_to_go: usize, header: BlockHeader)
        -> (r: Result<()>)
        requires
            old(self)@.compressed_pos <= compressed@.len(),
            old(self)@.reset_pos matches Some(r) ==> r <= old(self)@.decompressed_pos,
        ensures
            ({
                let o = quantum_step(old(self)@, header@, compressed@, raw_bytes_to_go as int);
                &&& final(self)@ == o.1
                &&& match o.0 {
                    Ok(()) => r is Ok,
                    Err(e) => r matches Err(err) && err@ == e,
                }
            }),
    {
        let clen = compressed.len();
        let (_, rest) = compressed.split_at(self.compressed_pos);
        let (quantum_header, offset) = match QuantumHeader::try_from(
            rest,
            header.has_quantum_crcs(),
            raw_bytes_to_go,
        ) {
            Ok(p) => p,
            Err(e) => {
                return Err(e);
            },
        };
        self.compressed_pos = self.compressed_pos + offset;
        let len = quantum_header.compressed_len();
        if len > raw_bytes_to_go {
            return Err(Error::InvalidQuantumLength(len));
        }
        if len > clen - self.compressed_pos {
            return Err(Error::InvalidQuantumLength(len));
        }
        if self.check_crc && len > 0 && header.has_quantum_crcs() {
            let crc = match quantum_header.crc() {
                Some(crc) => crc,
                None => {
                    return Err(Error::DecompressionFailed);
                },
            };
            let (_, tail) = compressed.split_at(self.compressed_pos);
            let (quantum, _) = tail.split_at(len);
            assert(quantum@ == compressed@.subrange(
                self.compressed_pos as int,
                self.compressed_pos + len,
            ));
            let computed_crc = compute_crc(quantum);
            if crc != computed_crc {
                return Err(Error::InvalidCRC(crc_mismatch_message(crc, computed_crc)));
            }
        }
        if len == raw_bytes_to_go {
            return Err(Error::DecompressionFailed);
        }
        self.decode_one(raw_bytes_to_go, header.compressor(), len);
        Ok(())
    }

    /// Copies the `raw_bytes_to_go` bytes of a stored block, where the stream
    /// holds that many; else leaves everything as it is.
    fn copy_one(&mut self, compressed: &[u8], decompressed: &mut [u8], raw_bytes_to_go: usize)
        requires
            old(self).compressed_pos <= compressed@.len(),
            old(self).decompressed_pos + raw_bytes_to_go <= old(decompressed)@.len(),
        ensures
            raw_bytes_to_go > compressed@.len() - old(self).compressed_pos ==> final(self)@ == old(
                self,
            )@ && final(decompressed)@ == old(decompressed)@,
            raw_bytes_to_go <= compressed@.len() - old(self).compressed_pos ==> final(self)@ == (
            DecoderView {
                compressed_pos: (old(self).compressed_pos + raw_bytes_to_go) as usize,
                decompressed_pos: (old(self).decompressed_pos + raw_bytes_to_go) as usize,
                ..old(self)@
            }) && final(decompressed)@ == copied(
                old(decompressed)@,
                old(self).decompressed_pos as int,
                compressed@,
                old(self).compressed_pos as int,
                raw_bytes_to_go as int,
            ),
    {
        let dlen = decompressed.len();
        let compressed_available = compressed.len() - self.compressed_pos;
        if raw_bytes_to_go > compressed_available {
            return;
        }
        copy_bytes(
            compressed,
            self.compressed_pos,
            decompressed,
            self.decompressed_pos,
            raw_bytes_to_go,
        );
        self.compressed_pos = self.compressed_pos + raw_bytes_to_go;
        self.decompressed_pos = self.decompressed_pos + raw_bytes_to_go;
    }

    /// Hands out the quantum of `block_compressed_len` bytes at the current
    /// positions, which decodes into `raw_bytes_to_go` bytes with
    /// `block_compressor`.
    fn decode_one(
        &mut self,
        raw_bytes_to_go: usize,
        block_compressor: Compressor,
        block_compressed_len: usize,
    )
        requires
            old(self).reset_pos matches Some(r) ==> r <= old(self).decompressed_pos,
        ensures
            final(self)@ == (DecoderView {
                pending: Some(
                    QuantumJob {
                        compressor: block_compressor,
                        compressed_start: old(self).compressed_pos,
                        compressed_len: block_compressed_len,
                        decompressed_start: old(self).decompressed_pos,
                        decompressed_len: raw_bytes_to_go,
                        pos_since_reset: pos_since_reset(old(self)@) as usize,
                    },
                ),
                ..old(self)@
            }),
    {
        let reset = match self.reset_pos {
            Some(r) => r,
            None => 0,
        };
        let pos_since_reset = self.decompressed_pos - reset;
        self.pending = Some(
            QuantumJob {
                compressor: block_compressor,
                compressed_start: self.compressed_pos,
                compressed_len: block_compressed_len,
                decompressed_start: self.decompressed_pos,
                decompressed_len: raw_bytes_to_go,
                pos_since_reset,
            },
        );
    }
}

} // verus!
