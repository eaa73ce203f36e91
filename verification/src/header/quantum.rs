use vstd::prelude::*;

use crate::error::{Error, ErrorView, Result};

verus! {

/// Number of bits of the packed compressed length in a quantum header.
const FLAG_SHIFT: u32 = 18;
/// Quantum special: the quantum repeats earlier output.
const FLAG_SPECIAL_WHOLEMATCH: u32 = 0;
/// Quantum special: the quantum is one repeated byte.
const FLAG_SPECIAL_MEMSET: u32 = 1;
/// Quantum special: the quantum is stored uncompressed.
const FLAG_SPECIAL_MEMCPY: u32 = 2;

/// The header that opens each quantum of a compressed block.
#[derive(Debug)]
pub struct QuantumHeader {
    compressed_len: usize,
    crc: Option<u32>,
    whole_match: bool,
    whole_match_offset: usize,
    huff: bool,
    extra: bool,
}

/// The value of a [`QuantumHeader`].
pub struct QuantumHeaderView {
    /// The length of the compressed quantum that follows the header.
    pub compressed_len: usize,
    /// The CRC of the compressed quantum, or for a quantum of one repeated
    /// byte, that byte.
    pub crc: Option<u32>,
    /// Whether the quantum repeats earlier output.
    pub whole_match: bool,
    /// Where the repeated output starts.
    pub whole_match_offset: usize,
    /// The first flag bit of a coded quantum.
    pub huff: bool,
    /// The second flag bit of a coded quantum.
    pub extra: bool,
}

impl View for QuantumHeader {
    type V = QuantumHeaderView;

    closed spec fn view(&self) -> QuantumHeaderView {
        QuantumHeaderView {
            compressed_len: self.compressed_len,
            crc: self.crc,
            whole_match: self.whole_match,
            whole_match_offset: self.whole_match_offset,
            huff: self.huff,
            extra: self.extra,
        }
    }
}

/// The big-endian value of three bytes.
pub open spec fn be24(b0: u8, b1: u8, b2: u8) -> u32 {
    (b0 as int * 65536 + b1 as int * 256 + b2 as int) as u32
}

/// A quantum header with no length, no CRC and no flags.
pub open spec fn empty_quantum_header() -> QuantumHeaderView {
    QuantumHeaderView {
        compressed_len: 0,
        crc: None,
        whole_match: false,
        whole_match_offset: 0,
        huff: false,
        extra: false,
    }
}

/// Adds the 3-byte CRC that follows the first three bytes of `block`, where
/// the block carries CRCs.
pub open spec fn with_quantum_crc(
    block: Seq<u8>,
    has_quantum_crcs: bool,
    h: QuantumHeaderView,
) -> core::result::Result<(QuantumHeaderView, usize), ErrorView> {
    if has_quantum_crcs {
        if block.len() < 6 {
            Err(ErrorView::InvalidChunkSize(block.len() as usize))
        } else {
            Ok((QuantumHeaderView { crc: Some(be24(block[3], block[4], block[5])), ..h }, 6))
        }
    } else {
        Ok((h, 3))
    }
}

/// The quantum header at the start of `block`, and the number of bytes that
/// it takes, or the error that reading it gives. `chunk_size` is the length
/// of decompressed data that the quantum covers.
///
/// The first three bytes, big-endian, hold the compressed length minus one in
/// their low 18 bits and two flags above them. Where the low 18 bits are all
/// set, the bits above them select a special quantum: 1 for a repeated byte
/// (the fourth byte), 2 for a stored one (whose length is `chunk_size`); a
/// whole-match quantum (0) is not supported and gives `InvalidHeader`.
pub open spec fn quantum_header_spec(
    block: Seq<u8>,
    has_quantum_crcs: bool,
    chunk_size: usize,
) -> core::result::Result<(QuantumHeaderView, usize), ErrorView> {
    if block.len() < 3 {
        Err(ErrorView::InvalidChunkSize(block.len() as usize))
    } else {
        let raw = be24(block[0], block[1], block[2]);
        let packed = raw % 262144;
        let special = raw / 262144;
        let h = empty_quantum_header();
        if packed == 262143 {
            if special == 0 {
                Err(ErrorView::InvalidHeader)
            } else if special == 1 {
                if block.len() < 4 {
                    Err(ErrorView::InvalidChunkSize(block.len() as usize))
                } else {
                    Ok((QuantumHeaderView { crc: Some(block[3] as u32), ..h }, 3))
                }
            } else if special == 2 {
                with_quantum_crc(
                    block,
                    has_quantum_crcs,
                    QuantumHeaderView { compressed_len: chunk_size, ..h },
                )
            } else {
                Err(ErrorView::InvalidQuantumSpecial(special))
            }
        } else {
            with_quantum_crc(
                block,
                has_quantum_crcs,
                QuantumHeaderView {
                    compressed_len: (packed + 1) as usize,
                    huff: special % 2 == 1,
                    extra: (special / 2) % 2 == 1,
                    ..h
                },
            )
        }
    }
}

/// The big-endian value of three bytes.
pub fn read_be24(b0: u8, b1: u8, b2: u8) -> (r: u32)
    ensures
        r == be24(b0, b1, b2),
        r < 0x1000000,
{
    let r = ((b0 as u32) << 16) | ((b1 as u32) << 8) | (b2 as u32);
    assert(((b0 as u32) << 16u32) | ((b1 as u32) << 8u32) | (b2 as u32) == (b0 as u32) * 65536
        + (b1 as u32) * 256 + (b2 as u32)) by (bit_vector);
    r
}

impl QuantumHeader {
    /// The length of the compressed quantum that follows the header.
    pub fn compressed_len(&self) -> (r: usize)
        ensures
            r == self@.compressed_len,
    {
        self.compressed_len
    }

    /// The CRC of the compressed quantum, where the block carries CRCs.
    pub fn crc(&self) -> (r: Option<u32>)
        ensures
            r == self@.crc,
    {
        self.crc
    }

    /// Reads the quantum header at the start of `block`, and the number of
    /// bytes that it takes. `chunk_size` is the length of decompressed data
    /// that the quantum covers.
    pub fn try_from(block: &[u8], has_quantum_crcs: bool, chunk_size: usize) -> (r: Result<
        (Self, usize),
    >)
        ensures
            match quantum_header_spec(block@, has_quantum_crcs, chunk_size) {
                Ok((h, n)) => r matches Ok((header, m)) && header@ == h && m == n,
                Err(e) => r matches Err(err) && err@ == e,
            },
            r matches Ok((header, n)) ==> (n == 3 || n == 6) && n <= block@.len() && (
            has_quantum_crcs ==> header@.crc is Some),
    {
        if block.len() < 3 {
            return Err(Error::InvalidChunkSize(block.len()));
        }
        let mut check_crc = false;
        let mut offset: usize = 3;
        let mut header = Self {
            compressed_len: 0,
            crc: None,
            whole_match: false,
            whole_match_offset: 0,
            huff: false,
            extra: false,
        };
        let raw = read_be24(block[0], block[1], block[2]);
        assert((1u32 << 18u32) == 262144u32) by (bit_vector);
        let packed_compressed_len = raw & ((1 << FLAG_SHIFT) - 1);
        assert(raw & 262143u32 == raw % 262144) by (bit_vector);
        assert(raw >> 18u32 == raw / 262144) by (bit_vector);
        assert(raw < 0x1000000 ==> (raw >> 18u32 & 1u32 == 1u32 <==> (raw / 262144) % 2 == 1))
            by (bit_vector);
        assert(raw < 0x1000000 ==> (raw >> 18u32 & 2u32 == 2u32 <==> ((raw / 262144) / 2) % 2
            == 1)) by (bit_vector);
        if packed_compressed_len == ((1 << FLAG_SHIFT) - 1) {
            let special = raw >> FLAG_SHIFT;
            if special == FLAG_SPECIAL_WHOLEMATCH {
                return Err(Error::InvalidHeader);
            } else if special == FLAG_SPECIAL_MEMSET {
                if block.len() < 4 {
                    return Err(Error::InvalidChunkSize(block.len()));
                }
                header.crc = Some(block[3] as u32);
            } else if special == FLAG_SPECIAL_MEMCPY {
                header.compressed_len = chunk_size;
                check_crc = true;
            } else {
                return Err(Error::InvalidQuantumSpecial(special));
            }
        } else {
            header.compressed_len = packed_compressed_len as usize + 1;
            header.huff = raw >> FLAG_SHIFT & 0b1 == 0b1;
            header.extra = raw >> FLAG_SHIFT & 0b10 == 0b10;
            check_crc = true;
        }
        if check_crc && has_quantum_crcs {
            if block.len() < 6 {
                return Err(Error::InvalidChunkSize(block.len()));
            }
            header.crc = Some(read_be24(block[3], block[4], block[5]));
            offset += 3;
        }
        Ok((header, offset))
    }
}

} // verus!
