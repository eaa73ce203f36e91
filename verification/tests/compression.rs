use oodle_rs::util::compression::compressor_scratch_memory_size;
use oodle_rs::util::crc::compute_crc;
use oodle_rs::{get_compressed_buffer_size_hint, Compressor, BLOCK_LEN, CHUNK_LEN};

#[test]
fn test_compressor_scratch_memory_size() {
    assert_eq!(
        compressor_scratch_memory_size(Compressor::Kraken, CHUNK_LEN),
        446_496
    );
    assert_eq!(
        compressor_scratch_memory_size(Compressor::Leviathan, CHUNK_LEN),
        446_496
    );
    assert_eq!(
        compressor_scratch_memory_size(Compressor::Mermaid, CHUNK_LEN),
        315_424
    );
    assert_eq!(
        compressor_scratch_memory_size(Compressor::Selkie, CHUNK_LEN),
        315_424
    );
    assert_eq!(
        compressor_scratch_memory_size(Compressor::Hydra, CHUNK_LEN),
        446_496
    );
}

#[test]
fn test_compute_crc() {
    let data = b"Hello, world!";
    assert_eq!(compute_crc(data), 0xEF5D64);
}

#[test]
fn scratch_size_of_short_output() {
    // 100 bytes: 100 * 3 + 32 + 49152 + 4096 for Kraken, 100 * 2 + ... for Mermaid.
    assert_eq!(compressor_scratch_memory_size(Compressor::Kraken, 100), 53_580);
    assert_eq!(compressor_scratch_memory_size(Compressor::Mermaid, 100), 53_480);
    assert_eq!(compressor_scratch_memory_size(Compressor::Kraken, 0), 53_280);
    // Longer than a chunk: capped at one chunk.
    assert_eq!(
        compressor_scratch_memory_size(Compressor::Kraken, 10 * CHUNK_LEN),
        446_496
    );
}

#[test]
fn size_hint_adds_headers_per_block() {
    assert_eq!(get_compressed_buffer_size_hint(0), 0);
    assert_eq!(get_compressed_buffer_size_hint(1), 1 + 24);
    assert_eq!(get_compressed_buffer_size_hint(BLOCK_LEN), BLOCK_LEN + 24);
    assert_eq!(get_compressed_buffer_size_hint(BLOCK_LEN + 1), BLOCK_LEN + 1 + 48);
    assert_eq!(get_compressed_buffer_size_hint(1_000_000), 1_000_000 + 4 * 24);
}

#[test]
fn crc_of_empty_and_long_inputs() {
    let empty: [u8; 0] = [];
    assert!(compute_crc(&empty) < 0x100_0000);
    let long: Vec<u8> = (0..200u32).map(|i| (i * 7 + 3) as u8).collect();
    let a = compute_crc(&long);
    assert!(a < 0x100_0000);
    // Padding a partial block with zeros is not the same as a longer input:
    // the length is part of the hash.
    let mut padded = long.clone();
    padded.extend_from_slice(&[0u8; 40]);
    assert_ne!(compute_crc(&padded), a);
    // One changed byte changes the checksum.
    let mut changed = long.clone();
    changed[150] ^= 1;
    assert_ne!(compute_crc(&changed), a);
}
