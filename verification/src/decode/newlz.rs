//! The chunk layout of Kraken quanta.
//!
//! A Kraken quantum is a run of chunks, each covering up to `CHUNK_LEN` bytes
//! of output. A chunk opens with a 3-byte big-endian header: its low 19 bits
//! give the compressed length of the chunk and the 4 bits above them its
//! literal type. A chunk whose compressed length equals its output length is
//! stored (it must have the `Sub` type); any other is entropy coded and must
//! cover at least `MIN_CHUNK_LEN` bytes.
//!
//! [`decode_one`] reads all chunk headers of a quantum, copies the stored
//! chunks into place and lists every chunk, so that the entropy-coded ones can
//! then be decoded, in order, by the chunk decoder.
use vstd::prelude::*;

use super::error::{DecodeError, DecodeErrorView, DecodeResult};
use super::literal_type::{literal_type_from_code, LiteralType};
use crate::header::{be24, read_be24};
use crate::util::copy::{copied, copy_bytes};
use crate::{CHUNK_LEN, MIN_CHUNK_LEN};

verus! {

/// One chunk of a Kraken quantum.
#[derive(Debug, Clone, Copy, PartialEq, Eq, Structural)]
pub struct Chunk {
    /// How the literals of the chunk are coded.
    pub literal_type: LiteralType,
    /// Whether the chunk is stored uncompressed.
    pub stored: bool,
    /// Where the chunk's compressed bytes start, after its header.
    pub compressed_start: usize,
    /// The number of compressed bytes of the chunk.
    pub compressed_len: usize,
    /// Where the chunk's output starts in the quantum's output.
    pub decompressed_start: usize,
    /// The number of bytes of output of the chunk.
    pub decompressed_len: usize,
    /// The position of the chunk's output since the last dictionary reset.
    pub chunk_pos: usize,
}

/// What [`decode_one`] found in a Kraken quantum.
pub struct NewlzPlan {
    /// The number of compressed bytes that the quantum takes.
    pub read_bytes: usize,
    /// The chunks of the quantum, in order.
    pub chunks: Vec<Chunk>,
}

/// The output length of the chunk that starts at `dpos` of an output of
/// `n` bytes.
pub open spec fn chunk_len_at(n: int, dpos: int) -> int {
    if n - dpos < CHUNK_LEN {
        n - dpos
    } else {
        CHUNK_LEN as int
    }
}

/// The chunk whose header is at `cpos` of `c` and whose output, of
/// `chunk_len` bytes, starts at `dpos`, or the error that reading it gives.
/// `psr` is the position of the quantum since the last dictionary reset.
pub open spec fn parse_chunk(
    c: Seq<u8>,
    psr: int,
    cpos: int,
    dpos: int,
    chunk_len: int,
) -> core::result::Result<Chunk, DecodeErrorView> {
    if c.len() - cpos < 4 {
        Err(DecodeErrorView::InvalidCompressedData("Not enough data to read chunk header"@))
    } else {
        let raw = be24(c[cpos], c[cpos + 1], c[cpos + 2]);
        let code = ((raw / 524288) % 16) as usize;
        let ccl = raw % 524288;
        match literal_type_from_code(code) {
            Err(e) => Err(e@),
            Ok(t) => {
                if ccl > c.len() - (cpos + 3) {
                    Err(
                        DecodeErrorView::InvalidCompressedData(
                            "Chunk compressed length exceeds available data"@,
                        ),
                    )
                } else if ccl > chunk_len {
                    Err(
                        DecodeErrorView::InvalidCompressedData(
                            "Chunk compressed length exceeds chunk length"@,
                        ),
                    )
                } else if ccl == chunk_len && t != LiteralType::Sub {
                    Err(DecodeErrorView::InvalidCompressedData("Chunk type is not raw"@))
                } else if ccl != chunk_len && chunk_len < MIN_CHUNK_LEN {
                    Err(DecodeErrorView::InvalidCompressedData("Chunk length is too short"@))
                } else {
                    Ok(
                        Chunk {
                            literal_type: t,
                            stored: ccl == chunk_len,
                            compressed_start: (cpos + 3) as usize,
                            compressed_len: ccl as usize,
                            decompressed_start: dpos as usize,
                            decompressed_len: chunk_len as usize,
                            chunk_pos: (dpos + psr) as usize,
                        },
                    )
                }
            },
        }
    }
}

/// The chunks of a quantum from the header at `cpos` and the output position
/// `dpos` on, and then either the position where the quantum's compressed
/// bytes end or the error that stops the reading. `n` is the output length of
/// the quantum and `psr` its position since the last dictionary reset.
pub open spec fn parse_chunks(c: Seq<u8>, n: nat, psr: nat, cpos: nat, dpos: nat) -> (
    Seq<Chunk>,
    core::result::Result<usize, DecodeErrorView>,
)
    decreases n - dpos,
{
    if dpos >= n {
        (seq![], Ok(cpos as usize))
    } else {
        let chunk_len = chunk_len_at(n as int, dpos as int);
        match parse_chunk(c, psr as int, cpos as int, dpos as int, chunk_len) {
            Err(e) => (seq![], Err(e)),
            Ok(ch) => {
                let rest = parse_chunks(
                    c,
                    n,
                    psr,
                    (ch.compressed_start + ch.compressed_len) as nat,
                    (dpos + chunk_len) as nat,
                );
                (seq![ch] + rest.0, rest.1)
            },
        }
    }
}

/// `out` with the compressed bytes of each stored chunk of `chunks` copied
/// into the chunk's output range.
pub open spec fn apply_stored(out: Seq<u8>, c: Seq<u8>, chunks: Seq<Chunk>) -> Seq<u8>
    decreases chunks.len(),
{
    if chunks.len() == 0 {
        out
    } else {
        let prev = apply_stored(out, c, chunks.drop_last());
        let ch = chunks.last();
        if ch.stored {
            copied(
                prev,
                ch.decompressed_start as int,
                c,
                ch.compressed_start as int,
                ch.decompressed_len as int,
            )
        } else {
            prev
        }
    }
}

/// Whether `chunks` tile the output from `dpos` to `n` and the compressed
/// bytes from `cpos` to `end`, each chunk after its 3-byte header, and each
/// chunk is well formed: at most `CHUNK_LEN` bytes of output, stored exactly
/// when its compressed length is its output length, and, where entropy coded,
/// at least `MIN_CHUNK_LEN` bytes of output.
pub open spec fn chunks_tile(
    chunks: Seq<Chunk>,
    c: Seq<u8>,
    psr: nat,
    cpos: nat,
    dpos: nat,
    n: nat,
    end: nat,
) -> bool {
    &&& chunks.len() == 0 ==> dpos >= n && end == cpos
    &&& chunks.len() > 0 ==> {
        &&& chunks[0].decompressed_start == dpos
        &&& chunks[0].compressed_start == cpos + 3
        &&& chunks.last().decompressed_start + chunks.last().decompressed_len == n
        &&& chunks.last().compressed_start + chunks.last().compressed_len == end
    }
    &&& forall|i: int, j: int|
        0 <= i && j == i + 1 && j < chunks.len() ==> {
            &&& (#[trigger] chunks[j]).decompressed_start == (#[trigger] chunks[i]).decompressed_start
                + chunks[i].decompressed_len
            &&& chunks[j].compressed_start == chunks[i].compressed_start
                + chunks[i].compressed_len + 3
        }
    &&& forall|i: int|
        0 <= i < chunks.len() ==> {
            &&& 0 < (#[trigger] chunks[i]).decompressed_len <= CHUNK_LEN
            &&& chunks[i].compressed_start + chunks[i].compressed_len <= c.len()
            &&& chunks[i].chunk_pos == chunks[i].decompressed_start + psr
            &&& chunks[i].stored == (chunks[i].compressed_len == chunks[i].decompressed_len)
            &&& (chunks[i].stored ==> chunks[i].literal_type == LiteralType::Sub)
            &&& (!chunks[i].stored ==> chunks[i].decompressed_len >= MIN_CHUNK_LEN)
        }
}

/// Where reading the chunks of a quantum succeeds, they tile its output and
/// its compressed bytes up to the end that the reading gives.
pub proof fn law_chunks_tile(c: Seq<u8>, n: nat, psr: nat, cpos: nat, dpos: nat)
    requires
        dpos <= n,
        cpos <= c.len(),
        c.len() <= usize::MAX,
        psr + n <= usize::MAX,
    ensures
        parse_chunks(c, n, psr, cpos, dpos).1 matches Ok(end) ==> chunks_tile(
            parse_chunks(c, n, psr, cpos, dpos).0,
            c,
            psr,
            cpos,
            dpos,
            n,
            end as nat,
        ),
    decreases n - dpos,
{
    if dpos < n {
        let chunk_len = chunk_len_at(n as int, dpos as int);
        match parse_chunk(c, psr as int, cpos as int, dpos as int, chunk_len) {
            Err(e) => {},
            Ok(ch) => {
                let next_c = (ch.compressed_start + ch.compressed_len) as nat;
                let next_d = (dpos + chunk_len) as nat;
                law_chunks_tile(c, n, psr, next_c, next_d);
                let rest = parse_chunks(c, n, psr, next_c, next_d);
                let all = parse_chunks(c, n, psr, cpos, dpos);
                assert(all.0 == seq![ch] + rest.0);
                if let Ok(end) = rest.1 {
                    assert(all.0[0] == ch);
                    assert forall|i: int| 0 <= i < rest.0.len() implies all.0[i + 1] == rest.0[i] by {}
                    if rest.0.len() > 0 {
                        assert(all.0.last() == rest.0.last());
                    }
                    assert forall|i: int, j: int|
                        0 <= i && j == i + 1 && j < all.0.len() implies {
                        &&& (#[trigger] all.0[j]).decompressed_start == (
                        #[trigger] all.0[i]).decompressed_start + all.0[i].decompressed_len
                        &&& all.0[j].compressed_start == all.0[i].compressed_start
                            + all.0[i].compressed_len + 3
                    } by {
                        if i > 0 {
                            assert(all.0[i] == rest.0[i - 1]);
                            assert(all.0[j] == rest.0[j - 1]);
                        }
                    }
                    assert forall|i: int| 0 <= i < all.0.len() implies {
                        &&& 0 < (#[trigger] all.0[i]).decompressed_len <= CHUNK_LEN
                        &&& all.0[i].compressed_start + all.0[i].compressed_len <= c.len()
                        &&& all.0[i].chunk_pos == all.0[i].decompressed_start + psr
                        &&& all.0[i].stored == (all.0[i].compressed_len
                            == all.0[i].decompressed_len)
                        &&& (all.0[i].stored ==> all.0[i].literal_type == LiteralType::Sub)
                        &&& (!all.0[i].stored ==> all.0[i].decompressed_len >= MIN_CHUNK_LEN)
                    } by {
                        if i > 0 {
                            assert(all.0[i] == rest.0[i - 1]);
                        }
                    }
                }
            },
        }
    }
}

/// Whether the output ranges of `chunks` come in order, without overlapping,
/// inside an output of `n` bytes.
pub open spec fn ranges_ascend(chunks: Seq<Chunk>, n: int) -> bool {
    &&& forall|i: int, j: int|
        0 <= i < j < chunks.len() ==> (#[trigger] chunks[i]).decompressed_start
            + chunks[i].decompressed_len <= (#[trigger] chunks[j]).decompressed_start
    &&& forall|k: int|
        0 <= k < chunks.len() ==> (#[trigger] chunks[k]).decompressed_start
            + chunks[k].decompressed_len <= n
}

/// In chunks that tile an output, each chunk's output range ends no later
/// than the next one starts.
proof fn lemma_tile_chain(
    chunks: Seq<Chunk>,
    c: Seq<u8>,
    psr: nat,
    cpos: nat,
    dpos: nat,
    n: nat,
    end: nat,
    i: int,
    j: int,
)
    requires
        chunks_tile(chunks, c, psr, cpos, dpos, n, end),
        0 <= i < j < chunks.len(),
    ensures
        chunks[i].decompressed_start + chunks[i].decompressed_len <= chunks[j].decompressed_start,
    decreases j - i,
{
    if j > i + 1 {
        lemma_tile_chain(chunks, c, psr, cpos, dpos, n, end, i, j - 1);
    }
    let p = j - 1;
    assert(chunks[j].decompressed_start == chunks[p].decompressed_start
        + chunks[p].decompressed_len);
}

/// Chunks that tile an output of `n` bytes from `dpos` on have ascending
/// output ranges inside it.
proof fn lemma_tile_ascends(
    chunks: Seq<Chunk>,
    c: Seq<u8>,
    psr: nat,
    cpos: nat,
    dpos: nat,
    n: nat,
    end: nat,
)
    requires
        chunks_tile(chunks, c, psr, cpos, dpos, n, end),
    ensures
        ranges_ascend(chunks, n as int),
{
    assert forall|i: int, j: int| 0 <= i < j < chunks.len() implies (#[trigger] chunks[i]).decompressed_start
        + chunks[i].decompressed_len <= (#[trigger] chunks[j]).decompressed_start by {
        lemma_tile_chain(chunks, c, psr, cpos, dpos, n, end, i, j);
    }
    assert forall|k: int| 0 <= k < chunks.len() implies (#[trigger] chunks[k]).decompressed_start
        + chunks[k].decompressed_len <= n by {
        let l = chunks.len() - 1;
        if k < l {
            lemma_tile_chain(chunks, c, psr, cpos, dpos, n, end, k, l);
        }
    }
}

/// What [`apply_stored`] leaves at each byte of chunks with ascending output
/// ranges: inside the range of a stored chunk, the matching compressed byte;
/// inside the range of an entropy-coded chunk, and past the last range, the
/// byte that was there.
proof fn lemma_apply_stored_at(out: Seq<u8>, c: Seq<u8>, chunks: Seq<Chunk>)
    requires
        ranges_ascend(chunks, out.len() as int),
    ensures
        apply_stored(out, c, chunks).len() == out.len(),
        forall|k: int, x: int|
            #![trigger chunks[k], apply_stored(out, c, chunks)[x]]
            0 <= k < chunks.len() && chunks[k].decompressed_start <= x
                < chunks[k].decompressed_start + chunks[k].decompressed_len
                ==> apply_stored(out, c, chunks)[x] == if chunks[k].stored {
                c[chunks[k].compressed_start + x - chunks[k].decompressed_start]
            } else {
                out[x]
            },
        forall|x: int|
            0 <= x < out.len() && (chunks.len() == 0 || chunks.last().decompressed_start
                + chunks.last().decompressed_len <= x) ==> #[trigger] apply_stored(out, c, chunks)[x]
                == out[x],
    decreases chunks.len(),
{
    if chunks.len() > 0 {
        let init = chunks.drop_last();
        let l = chunks.len() - 1;
        let last = chunks[l];
        assert(ranges_ascend(init, out.len() as int)) by {
            assert forall|i: int, j: int| 0 <= i < j < init.len() implies (#[trigger] init[i]).decompressed_start
                + init[i].decompressed_len <= (#[trigger] init[j]).decompressed_start by {
                assert(init[i] == chunks[i]);
                assert(init[j] == chunks[j]);
            }
            assert forall|k: int| 0 <= k < init.len() implies (#[trigger] init[k]).decompressed_start
                + init[k].decompressed_len <= out.len() by {
                assert(init[k] == chunks[k]);
            }
        }
        lemma_apply_stored_at(out, c, init);
        let prev = apply_stored(out, c, init);
        let r = apply_stored(out, c, chunks);
        assert(chunks.last() == last);
        assert(last.decompressed_start + last.decompressed_len <= out.len());
        if l > 0 {
            assert(init.last() == chunks[l - 1]);
            assert(chunks[l - 1].decompressed_start + chunks[l - 1].decompressed_len
                <= last.decompressed_start);
        }
        assert forall|k: int, x: int|
            #![trigger chunks[k], apply_stored(out, c, chunks)[x]]
            0 <= k < chunks.len() && chunks[k].decompressed_start <= x
                < chunks[k].decompressed_start + chunks[k].decompressed_len implies r[x]
                == if chunks[k].stored {
                c[chunks[k].compressed_start + x - chunks[k].decompressed_start]
            } else {
                out[x]
            } by {
            if k < l {
                assert(init[k] == chunks[k]);
                assert(chunks[k].decompressed_start + chunks[k].decompressed_len
                    <= last.decompressed_start);
                assert(r[x] == prev[x]);
            } else {
                assert(prev[x] == out[x]);
            }
        }
        assert forall|x: int|
            0 <= x < out.len() && (chunks.len() == 0 || chunks.last().decompressed_start
                + chunks.last().decompressed_len <= x) implies #[trigger] apply_stored(
            out,
            c,
            chunks,
        )[x] == out[x] by {
            assert(r[x] == prev[x]);
        }
    }
}

/// Every stored chunk is copied into place, whatever chunks come before it:
/// where reading the chunks of a quantum succeeds, applying them to an
/// output puts, in the output range of each stored chunk, the chunk's
/// compressed bytes, and leaves the output range of each entropy-coded chunk
/// as it was.
pub proof fn law_stored_chunks_in_place(c: Seq<u8>, out: Seq<u8>, psr: nat)
    requires
        c.len() <= usize::MAX,
        psr + out.len() <= usize::MAX,
    ensures
        ({
            let parsed = parse_chunks(c, out.len(), psr, 0, 0);
            let chunks = parsed.0;
            let r = apply_stored(out, c, chunks);
            parsed.1 is Ok ==> {
                &&& r.len() == out.len()
                &&& forall|k: int|
                    0 <= k < chunks.len() && (#[trigger] chunks[k]).stored ==> r.subrange(
                        chunks[k].decompressed_start as int,
                        chunks[k].decompressed_start + chunks[k].decompressed_len,
                    ) == c.subrange(
                        chunks[k].compressed_start as int,
                        chunks[k].compressed_start + chunks[k].decompressed_len,
                    )
                &&& forall|k: int|
                    0 <= k < chunks.len() && !(#[trigger] chunks[k]).stored ==> r.subrange(
                        chunks[k].decompressed_start as int,
                        chunks[k].decompressed_start + chunks[k].decompressed_len,
                    ) == out.subrange(
                        chunks[k].decompressed_start as int,
                        chunks[k].decompressed_start + chunks[k].decompressed_len,
                    )
            }
        }),
{
    let n = out.len();
    law_chunks_tile(c, n, psr, 0, 0);
    let parsed = parse_chunks(c, n, psr, 0, 0);
    let chunks = parsed.0;
    if let Ok(end) = parsed.1 {
        lemma_tile_ascends(chunks, c, psr, 0, 0, n, end as nat);
        lemma_apply_stored_at(out, c, chunks);
        let r = apply_stored(out, c, chunks);
        assert forall|k: int| 0 <= k < chunks.len() && (#[trigger] chunks[k]).stored implies r.subrange(
            chunks[k].decompressed_start as int,
            chunks[k].decompressed_start + chunks[k].decompressed_len,
        ) == c.subrange(
            chunks[k].compressed_start as int,
            chunks[k].compressed_start + chunks[k].decompressed_len,
        ) by {
            let ch = chunks[k];
            assert(r.subrange(
                ch.decompressed_start as int,
                ch.decompressed_start + ch.decompressed_len,
            ) =~= c.subrange(ch.compressed_start as int, ch.compressed_start + ch.decompressed_len));
        }
        assert forall|k: int| 0 <= k < chunks.len() && !(#[trigger] chunks[k]).stored implies r.subrange(
            chunks[k].decompressed_start as int,
            chunks[k].decompressed_start + chunks[k].decompressed_len,
        ) == out.subrange(
            chunks[k].decompressed_start as int,
            chunks[k].decompressed_start + chunks[k].decompressed_len,
        ) by {
            let ch = chunks[k];
            assert(r.subrange(
                ch.decompressed_start as int,
                ch.decompressed_start + ch.decompressed_len,
            ) =~= out.subrange(
                ch.decompressed_start as int,
                ch.decompressed_start + ch.decompressed_len,
            ));
        }
    }
}

/// Where the chunk at `cpos`, `dpos` gives an error, the chunks read so far
/// are all the chunks, and the error ends the reading.
proof fn lemma_stop(
    c: Seq<u8>,
    n: nat,
    psr: nat,
    cpos: nat,
    dpos: nat,
    prefix: Seq<Chunk>,
    e: DecodeErrorView,
)
    requires
        dpos < n,
        parse_chunk(c, psr as int, cpos as int, dpos as int, chunk_len_at(n as int, dpos as int))
            == Err::<Chunk, DecodeErrorView>(e),
    ensures
        prefix + parse_chunks(c, n, psr, cpos, dpos).0 == prefix,
        parse_chunks(c, n, psr, cpos, dpos).1 == Err::<usize, DecodeErrorView>(e),
{
    assert(prefix + parse_chunks(c, n, psr, cpos, dpos).0 =~= prefix);
}

/// Reads the chunk headers of the Kraken quantum `compressed`, whose output,
/// `decompressed`, starts `pos_since_reset` bytes after the last dictionary
/// reset. Copies each stored chunk into place and returns the number of
/// compressed bytes that the quantum takes, with all its chunks; the
/// entropy-coded chunks are left for the chunk decoder.
pub fn decode_one(compressed: &[u8], decompressed: &mut [u8], pos_since_reset: usize) -> (r:
    DecodeResult<NewlzPlan>)
    requires
        pos_since_reset + old(decompressed)@.len() <= usize::MAX,
    ensures
        ({
            let parsed = parse_chunks(
                compressed@,
                old(decompressed)@.len(),
                pos_since_reset as nat,
                0,
                0,
            );
            &&& final(decompressed)@ == apply_stored(old(decompressed)@, compressed@, parsed.0)
            &&& match parsed.1 {
                Ok(read) => r matches Ok(plan) && plan.read_bytes == read && plan.chunks@
                    == parsed.0,
                Err(e) => r matches Err(err) && err@ == e,
            }
        }),
        r matches Ok(plan) ==> {
            &&& forall|k: int|
                0 <= k < plan.chunks@.len() && (#[trigger] plan.chunks@[k]).stored
                    ==> final(decompressed)@.subrange(
                    plan.chunks@[k].decompressed_start as int,
                    plan.chunks@[k].decompressed_start + plan.chunks@[k].decompressed_len,
                ) == compressed@.subrange(
                    plan.chunks@[k].compressed_start as int,
                    plan.chunks@[k].compressed_start + plan.chunks@[k].decompressed_len,
                )
            &&& forall|k: int|
                0 <= k < plan.chunks@.len() && !(#[trigger] plan.chunks@[k]).stored
                    ==> final(decompressed)@.subrange(
                    plan.chunks@[k].decompressed_start as int,
                    plan.chunks@[k].decompressed_start + plan.chunks@[k].decompressed_len,
                ) == old(decompressed)@.subrange(
                    plan.chunks@[k].decompressed_start as int,
                    plan.chunks@[k].decompressed_start + plan.chunks@[k].decompressed_len,
                )
        },
{
    let ghost c = compressed@;
    let ghost n = old(decompressed)@.len();
    let ghost psr = pos_since_reset as nat;
    let ghost total = parse_chunks(c, n, psr, 0, 0);
    let len = decompressed.len();
    let clen = compressed.len();
    let mut compressed_pos: usize = 0;
    let mut decompressed_pos: usize = 0;
    let mut chunks: Vec<Chunk> = Vec::new();
    assert(chunks@ + total.0 =~= total.0);
    while decompressed_pos < len
        invariant
            len == n,
            n == old(decompressed)@.len(),
            clen == c.len(),
            compressed@ == c,
            decompressed@.len() == n,
            pos_since_reset + n <= usize::MAX,
            psr == pos_since_reset,
            total == parse_chunks(c, n, psr, 0, 0),
            compressed_pos <= clen,
            decompressed_pos <= len,
            total.0 == chunks@ + parse_chunks(
                c,
                n,
                psr,
                compressed_pos as nat,
                decompressed_pos as nat,
            ).0,
            total.1 == parse_chunks(c, n, psr, compressed_pos as nat, decompressed_pos as nat).1,
            decompressed@ == apply_stored(old(decompressed)@, c, chunks@),
        decreases len - decompressed_pos,
    {
        let ghost rest = parse_chunks(c, n, psr, compressed_pos as nat, decompressed_pos as nat);
        let chunk_len = if len - decompressed_pos < CHUNK_LEN {
            len - decompressed_pos
        } else {
            CHUNK_LEN
        };
        let chunk_pos = decompressed_pos + pos_since_reset;
        let ghost cpos0 = compressed_pos as int;
        let ghost parsed = parse_chunk(c, psr as int, cpos0, decompressed_pos as int, chunk_len as int);
        assert(chunk_len == chunk_len_at(n as int, decompressed_pos as int));
        if clen - compressed_pos < 4 {
            let e = DecodeError::InvalidCompressedData("Not enough data to read chunk header");
            proof {
                lemma_stop(c, n, psr, cpos0 as nat, decompressed_pos as nat, chunks@, e@);
            }
            return Err(e);
        }
        let raw = read_be24(
            compressed[compressed_pos],
            compressed[compressed_pos + 1],
            compressed[compressed_pos + 2],
        );
        assert(raw >> 19u32 & 0xFu32 == (raw / 524288) % 16) by (bit_vector);
        assert(raw & 524287u32 == raw % 524288) by (bit_vector);
        assert((1u32 << 19u32) == 524288u32) by (bit_vector);
        let code = (raw >> 19 & 0xF) as usize;
        let chunk_type = match LiteralType::try_from(code) {
            Ok(t) => t,
            Err(e) => {
                proof {
                    lemma_stop(c, n, psr, cpos0 as nat, decompressed_pos as nat, chunks@, e@);
                }
                return Err(e);
            },
        };
        let chunk_compressed_len = (raw & ((1 << 19) - 1)) as usize;
        compressed_pos += 3;
        if chunk_compressed_len > clen - compressed_pos {
            let e = DecodeError::InvalidCompressedData(
                "Chunk compressed length exceeds available data",
            );
            proof {
                lemma_stop(c, n, psr, cpos0 as nat, decompressed_pos as nat, chunks@, e@);
            }
            return Err(e);
        }
        if chunk_compressed_len > chunk_len {
            let e = DecodeError::InvalidCompressedData(
                "Chunk compressed length exceeds chunk length",
            );
            proof {
                lemma_stop(c, n, psr, cpos0 as nat, decompressed_pos as nat, chunks@, e@);
            }
            return Err(e);
        }
        let stored = chunk_compressed_len == chunk_len;
        if stored {
            if chunk_type != LiteralType::Sub {
                let e = DecodeError::InvalidCompressedData("Chunk type is not raw");
                proof {
                    lemma_stop(c, n, psr, cpos0 as nat, decompressed_pos as nat, chunks@, e@);
                }
                return Err(e);
            }
            copy_bytes(compressed, compressed_pos, decompressed, decompressed_pos, chunk_len);
        } else {
            if chunk_len < MIN_CHUNK_LEN {
                let e = DecodeError::InvalidCompressedData("Chunk length is too short");
                proof {
                    lemma_stop(c, n, psr, cpos0 as nat, decompressed_pos as nat, chunks@, e@);
                }
                return Err(e);
            }
        }
        let chunk = Chunk {
            literal_type: chunk_type,
            stored,
            compressed_start: compressed_pos,
            compressed_len: chunk_compressed_len,
            decompressed_start: decompressed_pos,
            decompressed_len: chunk_len,
            chunk_pos,
        };
        assert(parsed == Ok::<Chunk, DecodeErrorView>(chunk));
        let ghost before = chunks@;
        chunks.push(chunk);
        compressed_pos += chunk_compressed_len;
        decompressed_pos += chunk_len;
        assert(chunks@.drop_last() =~= before);
        assert(before + rest.0 =~= chunks@ + parse_chunks(
            c,
            n,
            psr,
            compressed_pos as nat,
            decompressed_pos as nat,
        ).0);
    }
    assert(chunks@ + seq![] =~= chunks@);
    proof {
        law_stored_chunks_in_place(c, old(decompressed)@, psr);
    }
    Ok(NewlzPlan { read_bytes: compressed_pos, chunks })
}

} // verus!
