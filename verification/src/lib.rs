//! Decoding of Kraken, Mermaid and Leviathan compressed buffers.
use vstd::prelude::*;

pub mod block_header;
pub mod decode;
pub mod decoder;
pub mod decompress;
pub mod error;
pub mod header;
pub mod message;
mod model;
pub mod util;

pub use crate::util::compression::get_compressed_buffer_size_hint;

pub use crate::model::{
    CompressOptions, CompressOptionsBuilder, CompressOptionsView, CompressionLevel, Compressor,
    Jobify, Profile,
};

verus! {

/// Length of a chunk of decompressed data inside a quantum.
pub const CHUNK_LEN: usize = 131072;
/// Smallest length of an entropy-coded chunk.
pub const MIN_CHUNK_LEN: usize = 128;
/// Length of a block of decompressed data.
pub const BLOCK_LEN: usize = 262144;
/// Length of a block header.
pub const BLOCK_HEADER_BYTES_MAX: usize = 2;
/// Largest length of a quantum header.
pub const QUANTUM_HEADER_MAX_SIZE: usize = 16;
/// Length of a chunk header.
pub const CHUNK_HEADER_SIZE: usize = 3;
/// Padding of scratch memory for alignment.
pub const SCRATCH_ALIGNMENT_PAD: usize = 32;
/// Scratch memory for the arrays of a chunk.
pub const ARRAY_INTERNAL_MAX_SCRATCH: usize = 49152;
/// Scratch memory for phase headers.
pub const MAX_SCRATCH_FOR_PHASE_HEADERS_AND_FUZZ: usize = 4096;

} // verus!
