//! Buffer size arithmetic.
use vstd::prelude::*;

use crate::model::Compressor;
use crate::{
    ARRAY_INTERNAL_MAX_SCRATCH, BLOCK_HEADER_BYTES_MAX, BLOCK_LEN, CHUNK_HEADER_SIZE, CHUNK_LEN,
    MAX_SCRATCH_FOR_PHASE_HEADERS_AND_FUZZ, QUANTUM_HEADER_MAX_SIZE, SCRATCH_ALIGNMENT_PAD,
};

verus! {

/// The number of blocks of `BLOCK_LEN` bytes that cover `len` bytes.
pub open spec fn seek_chunk_count(len: nat) -> nat {
    if len % (BLOCK_LEN as nat) == 0 {
        len / (BLOCK_LEN as nat)
    } else {
        len / (BLOCK_LEN as nat) + 1
    }
}

/// The header bytes that each block of the compressed data may need at most.
pub open spec fn padding_per_seek_chunk() -> nat {
    (BLOCK_HEADER_BYTES_MAX + QUANTUM_HEADER_MAX_SIZE + CHUNK_HEADER_SIZE * 2) as nat
}

/// The size hint of [`get_compressed_buffer_size_hint`].
pub open spec fn compressed_buffer_size_hint(decompressed_len: nat) -> nat {
    decompressed_len + seek_chunk_count(decompressed_len) * padding_per_seek_chunk()
}

/// Get the compressed buffer size hint.
///
/// `decompressed_len` is the length of the decompressed data; the result is
/// the size of the compressed buffer to allocate: the data itself, and for
/// each block of it the largest headers that it can need.
///
/// The hint is likely to be larger than the actual compressed size.
pub fn get_compressed_buffer_size_hint(decompressed_len: usize) -> (r: usize)
    requires
        compressed_buffer_size_hint(decompressed_len as nat) <= usize::MAX,
    ensures
        r == compressed_buffer_size_hint(decompressed_len as nat),
        r >= decompressed_len,
{
    let mut padding_per_seek_chunk = BLOCK_HEADER_BYTES_MAX + QUANTUM_HEADER_MAX_SIZE;
    padding_per_seek_chunk += CHUNK_HEADER_SIZE * 2;
    let num_seek_chunks = decompressed_len / BLOCK_LEN + if decompressed_len % BLOCK_LEN == 0 {
        0
    } else {
        1
    };
    assert(num_seek_chunks * padding_per_seek_chunk <= usize::MAX - decompressed_len);
    decompressed_len + num_seek_chunks * padding_per_seek_chunk
}

/// Whether `compressor` needs a third share of scratch memory.
pub open spec fn uses_large_scratch(compressor: Compressor) -> bool {
    compressor == Compressor::Kraken || compressor == Compressor::Leviathan || compressor
        == Compressor::Hydra
}

/// The scratch memory that decoding `decompressed_len` bytes with
/// `compressor` needs.
pub open spec fn scratch_memory_size(compressor: Compressor, decompressed_len: nat) -> nat {
    let min_scratch = if decompressed_len < CHUNK_LEN as nat {
        decompressed_len
    } else {
        CHUNK_LEN as nat
    };
    let shares: nat = if uses_large_scratch(compressor) {
        3
    } else {
        2
    };
    min_scratch * shares + (SCRATCH_ALIGNMENT_PAD + ARRAY_INTERNAL_MAX_SCRATCH
        + MAX_SCRATCH_FOR_PHASE_HEADERS_AND_FUZZ) as nat
}

/// The scratch memory that decoding `decompressed_len` bytes with
/// `compressor` needs.
pub fn compressor_scratch_memory_size(compressor: Compressor, decompressed_len: usize) -> (r:
    usize)
    ensures
        r == scratch_memory_size(compressor, decompressed_len as nat),
{
    let min_scratch = if decompressed_len < CHUNK_LEN {
        decompressed_len
    } else {
        CHUNK_LEN
    };
    let mut max_scratch = min_scratch * 2 + SCRATCH_ALIGNMENT_PAD;
    if compressor == Compressor::Kraken || compressor == Compressor::Leviathan || compressor
        == Compressor::Hydra {
        max_scratch += min_scratch;
    }
    max_scratch += ARRAY_INTERNAL_MAX_SCRATCH;
    max_scratch += MAX_SCRATCH_FOR_PHASE_HEADERS_AND_FUZZ;
    max_scratch
}

} // verus!
