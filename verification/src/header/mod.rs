//! The headers that open each block and each quantum of a compressed stream.
mod block;
mod quantum;

pub use block::{block_header_spec, law_block_header_bits, BlockHeader, BlockHeaderView};

pub use quantum::{be24, read_be24, quantum_header_spec, QuantumHeader, QuantumHeaderView};
