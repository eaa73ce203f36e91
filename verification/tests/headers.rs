use oodle_rs::decode::error::DecodeError;
use oodle_rs::decode::literal_type::LiteralType;
use oodle_rs::error::Error;
use oodle_rs::header::{BlockHeader, QuantumHeader};
use oodle_rs::Compressor;

#[test]
fn block_header_of_each_compressor() {
    let (h, n) = BlockHeader::try_from_block(&[0x00, 0x06]).unwrap();
    assert_eq!(n, 2);
    assert_eq!(h.compressor(), Compressor::Kraken);
    assert!(!h.is_memcpy() && !h.is_reset() && !h.has_quantum_crcs());
    let (h, _) = BlockHeader::try_from_block(&[0x00, 0x0A, 0xFF]).unwrap();
    assert_eq!(h.compressor(), Compressor::Mermaid);
    let (h, _) = BlockHeader::try_from_block(&[0x00, 0x0C]).unwrap();
    assert_eq!(h.compressor(), Compressor::Leviathan);
}

#[test]
fn block_header_flags() {
    let (h, _) = BlockHeader::try_from_block(&[0xC0, 0x86]).unwrap();
    assert!(h.is_memcpy());
    assert!(h.is_reset());
    assert!(h.has_quantum_crcs());
    assert_eq!(h.compressor(), Compressor::Kraken);
    let (h, _) = BlockHeader::try_from_block(&[0x40, 0x06]).unwrap();
    assert!(h.is_memcpy() && !h.is_reset());
    // The low four bits of the first byte are ignored.
    let (h, _) = BlockHeader::try_from_block(&[0x8F, 0x06]).unwrap();
    assert!(h.is_reset() && !h.is_memcpy());
}

#[test]
fn block_header_errors() {
    assert!(matches!(
        BlockHeader::try_from_block(&[0x06]),
        Err(Error::InvalidChunkSize(1))
    ));
    assert!(matches!(
        BlockHeader::try_from_block(&[]),
        Err(Error::InvalidChunkSize(0))
    ));
    assert!(matches!(
        BlockHeader::try_from_block(&[0x10, 0x06]),
        Err(Error::UnsupportedChunkVersion(5))
    ));
    assert!(matches!(
        BlockHeader::try_from_block(&[0x30, 0x06]),
        Err(Error::UnsupportedChunkVersion(7))
    ));
    assert!(matches!(
        BlockHeader::try_from_block(&[0x00, 0x07]),
        Err(Error::InvalidCompressor)
    ));
    // Selkie and Hydra blocks are not recognised.
    assert!(matches!(
        BlockHeader::try_from_block(&[0x00, 0x0B]),
        Err(Error::InvalidCompressor)
    ));
}

#[test]
fn crate_block_header_reads_the_same_fields() {
    assert!(oodle_rs::block_header::BlockHeader::try_from_block(&[0xC0, 0x8C]).is_ok());
    assert!(matches!(
        oodle_rs::block_header::BlockHeader::try_from_block(&[0xC0]),
        Err(Error::InvalidChunkSize(1))
    ));
    assert!(matches!(
        oodle_rs::block_header::BlockHeader::try_from_block(&[0x00, 0x00]),
        Err(Error::InvalidCompressor)
    ));
    assert!(matches!(
        oodle_rs::block_header::BlockHeader::try_from_block(&[0x20, 0x06]),
        Err(Error::UnsupportedChunkVersion(6))
    ));
}

#[test]
fn quantum_header_coded() {
    let (h, n) = QuantumHeader::try_from(&[0x00, 0x00, 0x09], false, 100).unwrap();
    assert_eq!(n, 3);
    assert_eq!(h.compressed_len(), 10);
    assert_eq!(h.crc(), None);
    let (h, n) = QuantumHeader::try_from(&[0x00, 0x00, 0x09, 0xAB, 0xCD, 0xEF], true, 100).unwrap();
    assert_eq!(n, 6);
    assert_eq!(h.compressed_len(), 10);
    assert_eq!(h.crc(), Some(0xABCDEF));
    // The largest packed length, with both flag bits set.
    let (h, _) = QuantumHeader::try_from(&[0x0F, 0xFF, 0xFE], false, 100).unwrap();
    assert_eq!(h.compressed_len(), 0x3FFFF);
}

#[test]
fn quantum_header_specials() {
    // A repeated byte: no CRC bytes follow, the byte stands in the CRC.
    let (h, n) = QuantumHeader::try_from(&[0x07, 0xFF, 0xFF, 0x42], true, 100).unwrap();
    assert_eq!(n, 3);
    assert_eq!(h.compressed_len(), 0);
    assert_eq!(h.crc(), Some(0x42));
    // A stored quantum takes the chunk size.
    let (h, n) = QuantumHeader::try_from(&[0x0B, 0xFF, 0xFF], false, 77).unwrap();
    assert_eq!(n, 3);
    assert_eq!(h.compressed_len(), 77);
    let (h, n) = QuantumHeader::try_from(&[0x0B, 0xFF, 0xFF, 1, 2, 3], true, 77).unwrap();
    assert_eq!(n, 6);
    assert_eq!(h.crc(), Some(0x010203));
}

#[test]
fn quantum_header_errors() {
    assert!(matches!(
        QuantumHeader::try_from(&[0x00, 0x00], false, 10),
        Err(Error::InvalidChunkSize(2))
    ));
    assert!(matches!(
        QuantumHeader::try_from(&[0x0F, 0xFF, 0xFF], false, 10),
        Err(Error::InvalidQuantumSpecial(3))
    ));
    assert!(matches!(
        QuantumHeader::try_from(&[0x03, 0xFF, 0xFF], false, 10),
        Err(Error::InvalidHeader)
    ));
    assert!(matches!(
        QuantumHeader::try_from(&[0x07, 0xFF, 0xFF], false, 10),
        Err(Error::InvalidChunkSize(3))
    ));
    assert!(matches!(
        QuantumHeader::try_from(&[0x00, 0x00, 0x09, 0xAB], true, 10),
        Err(Error::InvalidChunkSize(4))
    ));
}

#[test]
fn literal_types_round_trip() {
    for v in 0usize..6 {
        let t = LiteralType::try_from(v).unwrap();
        assert_eq!(i32::from(t), v as i32);
    }
    assert_eq!(LiteralType::Sub as u8, 0);
    assert_eq!(LiteralType::Raw as u8, 1);
    assert_eq!(LiteralType::SubAndF as u8, 5);
    assert_eq!(LiteralType::try_from(0usize).unwrap(), LiteralType::Sub);
    assert_eq!(LiteralType::try_from(1usize).unwrap(), LiteralType::Raw);
    assert_eq!(LiteralType::try_from(5usize).unwrap(), LiteralType::SubAndF);
    assert!(matches!(
        LiteralType::try_from(6usize),
        Err(DecodeError::InvalidLiteralType(6))
    ));
    assert!(matches!(
        LiteralType::try_from(15usize),
        Err(DecodeError::InvalidLiteralType(15))
    ));
}

#[test]
fn decode_errors_become_library_errors() {
    assert!(matches!(
        Error::from(DecodeError::InvalidLiteralType(7)),
        Error::InvalidChunkType(7)
    ));
    assert!(matches!(
        Error::from(DecodeError::DecompressionFailed),
        Error::DecompressionFailed
    ));
    assert!(matches!(
        Error::from(DecodeError::InvalidCompressedData("x")),
        Error::InvalidCompressedData("x")
    ));
    match Error::from(DecodeError::DecompressionError("m".to_string())) {
        Error::DecompressionError(s) => assert_eq!(s, "m"),
        other => panic!("unexpected {other:?}"),
    }
}
