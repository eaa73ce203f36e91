use vstd::prelude::*;

use crate::error::{Error, ErrorView, Result};
use crate::model::Compressor;
use crate::BLOCK_HEADER_BYTES_MAX;

verus! {

/// The header that opens each block of a compressed stream.
#[derive(Debug, Clone, Copy)]
pub struct BlockHeader {
    compressor: Compressor,
    is_memcpy: bool,
    is_reset: bool,
    has_quantum_crcs: bool,
}

/// The value of a [`BlockHeader`].
pub struct BlockHeaderView {
    /// The compressor that coded the block.
    pub compressor: Compressor,
    /// Whether the block is stored uncompressed.
    pub is_memcpy: bool,
    /// Whether the block starts a new, independent dictionary.
    pub is_reset: bool,
    /// Whether each quantum of the block carries a CRC.
    pub has_quantum_crcs: bool,
}

impl View for BlockHeader {
    type V = BlockHeaderView;

    closed spec fn view(&self) -> BlockHeaderView {
        BlockHeaderView {
            compressor: self.compressor,
            is_memcpy: self.is_memcpy,
            is_reset: self.is_reset,
            has_quantum_crcs: self.has_quantum_crcs,
        }
    }
}

/// The header at the start of `block`, or the error that reading it gives.
///
/// The first byte holds the version (bits 4 and 5, which must be 0 for
/// version 4), the stored flag (bit 6) and the reset flag (bit 7); the second
/// holds the decoder type (bits 0 to 6: 6 for Kraken, 10 for Mermaid, 12 for
/// Leviathan) and the quantum CRC flag (bit 7).
pub open spec fn block_header_spec(block: Seq<u8>) -> core::result::Result<
    BlockHeaderView,
    ErrorView,
> {
    if block.len() < BLOCK_HEADER_BYTES_MAX {
        Err(ErrorView::InvalidChunkSize(block.len() as usize))
    } else if (block[0] >> 4u8) & 3u8 != 0 {
        Err(ErrorView::UnsupportedChunkVersion((4 + ((block[0] >> 4u8) & 3u8)) as u8))
    } else {
        let decode_type = block[1] & 0x7Fu8;
        let h = BlockHeaderView {
            compressor: Compressor::Kraken,
            is_memcpy: (block[0] >> 6u8) & 1u8 == 1,
            is_reset: (block[0] >> 7u8) & 1u8 == 1,
            has_quantum_crcs: (block[1] >> 7u8) & 1u8 == 1,
        };
        if decode_type == 6 {
            Ok(h)
        } else if decode_type == 10 {
            Ok(BlockHeaderView { compressor: Compressor::Mermaid, ..h })
        } else if decode_type == 12 {
            Ok(BlockHeaderView { compressor: Compressor::Leviathan, ..h })
        } else {
            Err(ErrorView::InvalidCompressor)
        }
    }
}

/// A block header reads exactly where the block holds at least two bytes, the
/// version bits of the first byte (bits 4 and 5) are zero and the low seven
/// bits of the second byte name a compressor (6, 10 or 12). The header's
/// flags are then single bits of those bytes, each independent of the
/// others and of the compressor: stored is bit 6 of the first byte, reset is
/// bit 7 of the first byte, and quantum CRCs is bit 7 of the second.
pub proof fn law_block_header_bits(block: Seq<u8>)
    ensures
        block_header_spec(block) is Ok <==> (block.len() >= 2 && (block[0] / 16) % 4 == 0 && (
        block[1] % 128 == 6 || block[1] % 128 == 10 || block[1] % 128 == 12)),
        block_header_spec(block) matches Ok(h) ==> {
            &&& h.is_memcpy == ((block[0] / 64) % 2 == 1)
            &&& h.is_reset == (block[0] >= 128)
            &&& h.has_quantum_crcs == (block[1] >= 128)
            &&& (h.compressor == Compressor::Kraken <==> block[1] % 128 == 6)
            &&& (h.compressor == Compressor::Mermaid <==> block[1] % 128 == 10)
            &&& (h.compressor == Compressor::Leviathan <==> block[1] % 128 == 12)
        },
{
    if block.len() >= 2 {
        let b0 = block[0];
        let b1 = block[1];
        assert(((b0 >> 4u8) & 3u8 == 0) == ((b0 / 16) % 4 == 0)) by (bit_vector);
        assert(((b0 >> 6u8) & 1u8 == 1) == ((b0 / 64) % 2 == 1)) by (bit_vector);
        assert(((b0 >> 7u8) & 1u8 == 1) == (b0 >= 128)) by (bit_vector);
        assert(((b1 >> 7u8) & 1u8 == 1) == (b1 >= 128)) by (bit_vector);
        assert(b1 & 0x7Fu8 == b1 % 128) by (bit_vector);
    }
}

impl BlockHeader {
    /// The compressor that coded the block.
    pub fn compressor(&self) -> (r: Compressor)
        ensures
            r == self@.compressor,
    {
        self.compressor
    }

    /// Whether the block is stored uncompressed.
    pub fn is_memcpy(&self) -> (r: bool)
        ensures
            r == self@.is_memcpy,
    {
        self.is_memcpy
    }

    /// Whether the block starts a new, independent dictionary.
    pub fn is_reset(&self) -> (r: bool)
        ensures
            r == self@.is_reset,
    {
        self.is_reset
    }

    /// Whether each quantum of the block carries a CRC.
    pub fn has_quantum_crcs(&self) -> (r: bool)
        ensures
            r == self@.has_quantum_crcs,
    {
        self.has_quantum_crcs
    }

    /// Reads the header at the start of `block`, and the number of bytes that
    /// it takes (always 2).
    pub fn try_from_block(block: &[u8]) -> (r: Result<(Self, usize)>)
        ensures
            match block_header_spec(block@) {
                Ok(h) => r matches Ok((header, n)) && header@ == h && n == 2,
                Err(e) => r matches Err(err) && err@ == e,
            },
            r matches Ok((header, _)) ==> (header@.compressor == Compressor::Kraken
                || header@.compressor == Compressor::Mermaid || header@.compressor
                == Compressor::Leviathan),
            r matches Ok((header, _)) ==> {
                &&& header@.is_memcpy == ((block@[0] / 64) % 2 == 1)
                &&& header@.is_reset == (block@[0] >= 128)
                &&& header@.has_quantum_crcs == (block@[1] >= 128)
            },
    {
        proof {
            law_block_header_bits(block@);
        }
        if block.len() < BLOCK_HEADER_BYTES_MAX {
            return Err(Error::InvalidChunkSize(block.len()));
        }
        let b0 = block[0];
        let b1 = block[1];
        assert((b0 >> 4u8) & 3u8 <= 3u8) by (bit_vector);
        let version = 4 + ((b0 >> 4) & 0b11);
        if version != 4 {
            return Err(Error::UnsupportedChunkVersion(version));
        }
        let is_memcpy = (b0 >> 6) & 0b1 == 1;
        let is_reset = (b0 >> 7) & 0b1 == 1;
        let decode_type = b1 & 0b0111_1111;
        let has_quantum_crcs = (b1 >> 7) & 0b1 == 1;
        let compressor = match decode_type {
            6 => Compressor::Kraken,
            10 => Compressor::Mermaid,
            12 => Compressor::Leviathan,
            _ => return Err(Error::InvalidCompressor),
        };
        let header = Self { compressor, is_memcpy, is_reset, has_quantum_crcs };
        Ok((header, 2))
    }
}

} // verus!
