//! A block header with its fields open to the crate.
use vstd::prelude::*;

use crate::error::{ErrorView, Result};
use crate::header::{block_header_spec, BlockHeaderView};
use crate::model::Compressor;

verus! {

/// The header that opens each block of a compressed stream.
pub struct BlockHeader {
    pub(crate) compressor: Compressor,
    pub(crate) is_memcpy: bool,
    pub(crate) is_reset: bool,
    pub(crate) has_quantum_crcs: bool,
}

impl View for BlockHeader {
    type V = BlockHeaderView;

    closed spec fn view(&self) -> BlockHeaderView {
        BlockHeaderView {
            compressor: self.compressor,
            is_memcpy: self.is_memcpy,
            is_reset: self.is_reset,
            has_quantum_crcs: self.has_quantum_crcs,
        }
    }
}

impl BlockHeader {
    /// Reads the header at the start of `block`.
    pub fn try_from_block(block: &[u8]) -> (r: Result<Self>)
        ensures
            match block_header_spec(block@) {
                Ok(h) => r matches Ok(header) && header@ == h,
                Err(e) => r matches Err(err) && err@ == e,
            },
    {
        let (header, _) = crate::header::BlockHeader::try_from_block(block)?;
        Ok(
            Self {
                compressor: header.compressor(),
                is_memcpy: header.is_memcpy(),
                is_reset: header.is_reset(),
                has_quantum_crcs: header.has_quantum_crcs(),
            },
        )
    }
}

} // verus!
