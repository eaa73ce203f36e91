use oodle_rs::decode::error::DecodeError;
use oodle_rs::decode::literal_type::LiteralType;
use oodle_rs::decode::newlz::decode_one;
use oodle_rs::decode::quantum::check_quantum_read;
use oodle_rs::decoder::{Decoder, Progress, QuantumJob};
use oodle_rs::decompress::start_decompress;
use oodle_rs::error::Error;
use oodle_rs::util::crc::compute_crc;
use oodle_rs::{Compressor, BLOCK_LEN, CHUNK_LEN};

fn bytes(n: usize, seed: u8) -> Vec<u8> {
    (0..n).map(|i| (i as u8).wrapping_mul(31).wrapping_add(seed)).collect()
}

#[test]
fn kraken_quantum_with_one_stored_chunk() {
    let payload = bytes(5, 1);
    let mut c = vec![0x00, 0x00, 0x05];
    c.extend_from_slice(&payload);
    let mut out = vec![0u8; 5];
    let plan = decode_one(&c, &mut out, 0).unwrap();
    assert_eq!(plan.read_bytes, 8);
    assert_eq!(plan.chunks.len(), 1);
    let ch = plan.chunks[0];
    assert!(ch.stored);
    assert_eq!(ch.literal_type, LiteralType::Sub);
    assert_eq!((ch.compressed_start, ch.compressed_len), (3, 5));
    assert_eq!((ch.decompressed_start, ch.decompressed_len), (0, 5));
    assert_eq!(out, payload);
}

#[test]
fn kraken_quantum_with_coded_chunk() {
    // Raw literal type (1), 50 compressed bytes for 200 bytes of output.
    let mut c = vec![0x08, 0x00, 0x32];
    c.extend_from_slice(&bytes(50, 9));
    c.extend_from_slice(&[0xEE; 4]);
    let mut out = vec![0xAAu8; 200];
    let plan = decode_one(&c, &mut out, 1000).unwrap();
    assert_eq!(plan.read_bytes, 53);
    assert_eq!(plan.chunks.len(), 1);
    let ch = plan.chunks[0];
    assert!(!ch.stored);
    assert_eq!(ch.literal_type, LiteralType::Raw);
    assert_eq!(ch.chunk_pos, 1000);
    assert_eq!((ch.compressed_start, ch.compressed_len), (3, 50));
    // Coded chunks are left for the chunk decoder.
    assert_eq!(out, vec![0xAAu8; 200]);
}

#[test]
fn kraken_quantum_with_two_chunks() {
    let first = bytes(CHUNK_LEN, 3);
    let second = bytes(10, 4);
    let mut c = vec![0x02, 0x00, 0x00];
    c.extend_from_slice(&first);
    c.extend_from_slice(&[0x00, 0x00, 0x0A]);
    c.extend_from_slice(&second);
    let mut out = vec![0u8; CHUNK_LEN + 10];
    let plan = decode_one(&c, &mut out, 7).unwrap();
    assert_eq!(plan.read_bytes, CHUNK_LEN + 16);
    assert_eq!(plan.chunks.len(), 2);
    assert_eq!(plan.chunks[1].decompressed_start, CHUNK_LEN);
    assert_eq!(plan.chunks[1].compressed_start, CHUNK_LEN + 6);
    assert_eq!(plan.chunks[1].chunk_pos, CHUNK_LEN + 7);
    assert_eq!(&out[..CHUNK_LEN], &first[..]);
    assert_eq!(&out[CHUNK_LEN..], &second[..]);
}

#[test]
fn kraken_quantum_of_no_output() {
    let mut out: Vec<u8> = vec![];
    let plan = decode_one(&[1, 2, 3], &mut out, 0).unwrap();
    assert_eq!(plan.read_bytes, 0);
    assert!(plan.chunks.is_empty());
}

fn newlz_error(c: &[u8], out_len: usize) -> DecodeError {
    let mut out = vec![0u8; out_len];
    match decode_one(c, &mut out, 0) {
        Err(e) => e,
        Ok(_) => panic!("expected an error"),
    }
}

#[test]
fn kraken_quantum_errors() {
    assert!(matches!(
        newlz_error(&[0, 0, 5], 5),
        DecodeError::InvalidCompressedData("Not enough data to read chunk header")
    ));
    assert!(matches!(
        newlz_error(&[0x30, 0, 5, 0], 5),
        DecodeError::InvalidLiteralType(6)
    ));
    assert!(matches!(
        newlz_error(&[0, 0, 10, 1, 2], 20),
        DecodeError::InvalidCompressedData("Chunk compressed length exceeds available data")
    ));
    assert!(matches!(
        newlz_error(&[0, 0, 6, 1, 2, 3, 4, 5, 6], 5),
        DecodeError::InvalidCompressedData("Chunk compressed length exceeds chunk length")
    ));
    assert!(matches!(
        newlz_error(&[0x08, 0, 5, 1, 2, 3, 4, 5], 5),
        DecodeError::InvalidCompressedData("Chunk type is not raw")
    ));
    let mut short = vec![0x08, 0, 50];
    short.extend_from_slice(&bytes(50, 0));
    assert!(matches!(
        newlz_error(&short, 100),
        DecodeError::InvalidCompressedData("Chunk length is too short")
    ));
}

#[test]
fn stored_chunks_before_an_error_are_copied() {
    let mut c = vec![0x02, 0x00, 0x00];
    c.extend_from_slice(&bytes(CHUNK_LEN, 5));
    c.extend_from_slice(&[0, 0]);
    let mut out = vec![0u8; CHUNK_LEN + 10];
    assert!(decode_one(&c, &mut out, 0).is_err());
    assert_eq!(&out[..CHUNK_LEN], &bytes(CHUNK_LEN, 5)[..]);
    assert_eq!(&out[CHUNK_LEN..], &[0u8; 10][..]);
}

#[test]
fn quantum_read_checks() {
    assert!(matches!(check_quantum_read(0, 5), Err(DecodeError::DecompressionFailed)));
    match check_quantum_read(3, 5) {
        Err(DecodeError::DecompressionError(s)) => {
            assert_eq!(s, "Decompressed data does not match header: 3 != 5")
        }
        other => panic!("unexpected {other:?}"),
    }
    match check_quantum_read(1234, 56789) {
        Err(DecodeError::DecompressionError(s)) => {
            assert_eq!(s, "Decompressed data does not match header: 1234 != 56789")
        }
        other => panic!("unexpected {other:?}"),
    }
    assert!(matches!(check_quantum_read(5, 5), Ok(5)));
}

fn run_to_end(dec: &mut Decoder, c: &[u8], out: &mut [u8]) -> Result<usize, Error> {
    match dec.decode(c, out)? {
        Progress::Done(n) => Ok(n),
        Progress::Quantum(job) => panic!("unexpected quantum {job:?}"),
    }
}

#[test]
fn stored_block_stream() {
    let payload = bytes(10, 2);
    let mut c = vec![0x40, 0x06];
    c.extend_from_slice(&payload);
    let mut out = vec![0u8; 10];
    let mut dec = start_decompress(out.len(), false, 0).unwrap();
    assert_eq!(run_to_end(&mut dec, &c, &mut out).unwrap(), 10);
    assert_eq!(out, payload);
}

#[test]
fn two_stored_blocks() {
    let first = bytes(BLOCK_LEN, 6);
    let second = bytes(5, 8);
    let mut c = vec![0x40, 0x06];
    c.extend_from_slice(&first);
    c.extend_from_slice(&[0x40, 0x0A]);
    c.extend_from_slice(&second);
    let mut out = vec![0u8; BLOCK_LEN + 5];
    let mut dec = start_decompress(out.len(), true, 0).unwrap();
    assert_eq!(run_to_end(&mut dec, &c, &mut out).unwrap(), BLOCK_LEN + 5);
    assert_eq!(&out[..BLOCK_LEN], &first[..]);
    assert_eq!(&out[BLOCK_LEN..], &second[..]);
}

#[test]
fn stream_too_short() {
    let mut out = vec![0u8; 10];
    let mut dec = start_decompress(out.len(), false, 0).unwrap();
    assert!(matches!(
        dec.decode(&[], &mut out),
        Err(Error::InvalidInput("compressed data is too short"))
    ));
    // A stored block whose bytes are missing is skipped; the next header is
    // then read from the bytes that follow.
    let mut dec = start_decompress(out.len(), false, 0).unwrap();
    assert!(matches!(
        dec.decode(&[0x40, 0x06, 1, 2, 3], &mut out),
        Err(Error::InvalidCompressor)
    ));
    let mut dec = start_decompress(out.len(), false, 0).unwrap();
    assert!(matches!(
        dec.decode(&[0x40, 0x06, 0x00, 0x06], &mut out),
        Err(Error::InvalidChunkSize(0))
    ));
    let mut dec = start_decompress(out.len(), false, 0).unwrap();
    assert!(matches!(
        dec.decode(&[0x40, 0x06, 0x40, 0x06], &mut out),
        Err(Error::InvalidInput("compressed data is too short"))
    ));
    assert_eq!(out, vec![0u8; 10]);
}

#[test]
fn quantum_is_handed_out_and_finished() {
    let mut c = vec![0x00, 0x06, 0x00, 0x00, 0x09];
    c.extend_from_slice(&bytes(10, 1));
    let mut out = vec![0u8; 20];
    let mut dec = start_decompress(out.len(), false, 0).unwrap();
    let job = match dec.decode(&c, &mut out).unwrap() {
        Progress::Quantum(job) => job,
        Progress::Done(_) => panic!("expected a quantum"),
    };
    assert_eq!(
        job,
        QuantumJob {
            compressor: Compressor::Kraken,
            compressed_start: 5,
            compressed_len: 10,
            decompressed_start: 0,
            decompressed_len: 20,
            pos_since_reset: 0,
        }
    );
    dec.finish_quantum(10).unwrap();
    assert_eq!(run_to_end(&mut dec, &c, &mut out).unwrap(), 20);
}

#[test]
fn quantum_read_mismatch() {
    let mut c = vec![0x00, 0x0C, 0x00, 0x00, 0x09];
    c.extend_from_slice(&bytes(10, 1));
    let mut out = vec![0u8; 20];
    let mut dec = start_decompress(out.len(), false, 0).unwrap();
    let job = match dec.decode(&c, &mut out).unwrap() {
        Progress::Quantum(job) => job,
        Progress::Done(_) => panic!("expected a quantum"),
    };
    assert_eq!(job.compressor, Compressor::Leviathan);
    match dec.finish_quantum(9) {
        Err(Error::DecompressionError(s)) => {
            assert_eq!(s, "Decompressed data does not match header")
        }
        other => panic!("unexpected {other:?}"),
    }
}

#[test]
fn quantum_crc_checked() {
    let quantum = bytes(10, 4);
    let crc = compute_crc(&quantum);
    let mut c = vec![0x00, 0x86, 0x00, 0x00, 0x09];
    c.extend_from_slice(&[(crc >> 16) as u8, (crc >> 8) as u8, crc as u8]);
    c.extend_from_slice(&quantum);
    let mut out = vec![0u8; 20];
    let mut dec = start_decompress(out.len(), true, 0).unwrap();
    match dec.decode(&c, &mut out).unwrap() {
        Progress::Quantum(job) => {
            assert_eq!(job.compressed_start, 8);
            assert_eq!(job.compressed_len, 10);
        }
        Progress::Done(_) => panic!("expected a quantum"),
    }
    // A corrupted quantum is refused.
    let mut bad = c.clone();
    bad[12] ^= 0x10;
    let mut dec = start_decompress(out.len(), true, 0).unwrap();
    match dec.decode(&bad, &mut out) {
        Err(Error::InvalidCRC(s)) => assert_eq!(
            s,
            format!(
                "CRC mismatch: expected {:08X}, got {:08X}",
                crc,
                compute_crc(&bad[8..18])
            )
        ),
        other => panic!("unexpected {other:?}"),
    }
    // Without checking, it is handed out.
    let mut dec = start_decompress(out.len(), false, 0).unwrap();
    assert!(matches!(dec.decode(&bad, &mut out), Ok(Progress::Quantum(_))));
}

#[test]
fn crc_message_has_eight_hex_digits() {
    let quantum = bytes(10, 4);
    let mut c = vec![0x00, 0x86, 0x00, 0x00, 0x09, 0x00, 0x00, 0x01];
    c.extend_from_slice(&quantum);
    let mut out = vec![0u8; 20];
    let mut dec = start_decompress(out.len(), true, 0).unwrap();
    match dec.decode(&c, &mut out) {
        Err(Error::InvalidCRC(s)) => {
            assert!(s.starts_with("CRC mismatch: expected 00000001, got 00"));
            assert_eq!(s.len(), "CRC mismatch: expected 00000001, got ".len() + 8);
        }
        other => panic!("unexpected {other:?}"),
    }
}

#[test]
fn quantum_length_errors() {
    let mut out = vec![0u8; 20];
    // Longer than the output it covers.
    let mut dec = start_decompress(out.len(), false, 0).unwrap();
    assert!(matches!(
        dec.decode(&[0x00, 0x06, 0x00, 0x00, 0x15, 0, 0], &mut out),
        Err(Error::InvalidQuantumLength(22))
    ));
    // Longer than the stream holds.
    let mut dec = start_decompress(out.len(), false, 0).unwrap();
    assert!(matches!(
        dec.decode(&[0x00, 0x06, 0x00, 0x00, 0x09, 1, 2], &mut out),
        Err(Error::InvalidQuantumLength(10))
    ));
    // A stored quantum is not supported.
    let mut c = vec![0x00, 0x06, 0x00, 0x00, 0x13];
    c.extend_from_slice(&bytes(20, 0));
    let mut dec = start_decompress(out.len(), false, 0).unwrap();
    assert!(matches!(dec.decode(&c, &mut out), Err(Error::DecompressionFailed)));
    // A whole-match quantum is not supported.
    let mut dec = start_decompress(out.len(), false, 0).unwrap();
    assert!(matches!(
        dec.decode(&[0x00, 0x06, 0x03, 0xFF, 0xFF], &mut out),
        Err(Error::InvalidHeader)
    ));
}

#[test]
fn reset_block_restarts_positions() {
    let mut c = vec![0x40, 0x06];
    c.extend_from_slice(&bytes(BLOCK_LEN, 1));
    let plain_len = c.len();
    c.extend_from_slice(&[0x80, 0x06, 0x00, 0x00, 0x09]);
    c.extend_from_slice(&bytes(10, 2));
    let mut out = vec![0u8; BLOCK_LEN + 20];
    let mut dec = start_decompress(out.len(), false, 0).unwrap();
    match dec.decode(&c, &mut out).unwrap() {
        Progress::Quantum(job) => {
            assert_eq!(job.decompressed_start, BLOCK_LEN);
            assert_eq!(job.pos_since_reset, 0);
            assert_eq!(job.compressed_start, plain_len + 5);
        }
        Progress::Done(_) => panic!("expected a quantum"),
    }
    c[plain_len] = 0x00;
    let mut dec = start_decompress(out.len(), false, 0).unwrap();
    match dec.decode(&c, &mut out).unwrap() {
        Progress::Quantum(job) => assert_eq!(job.pos_since_reset, BLOCK_LEN),
        Progress::Done(_) => panic!("expected a quantum"),
    }
}

#[test]
fn start_decompress_checks_arguments() {
    assert!(matches!(
        start_decompress(0, false, 0),
        Err(Error::EmptyBuffer("decompressed buffer is empty"))
    ));
    assert!(matches!(
        start_decompress(10, false, 5),
        Err(Error::InvalidDictionaryLength(
            "dictionary length must be a multiple of 262144"
        ))
    ));
    assert!(start_decompress(10, false, BLOCK_LEN).is_ok());
}

#[test]
fn dictionary_is_kept() {
    let dict = bytes(BLOCK_LEN, 3);
    let payload = bytes(10, 9);
    let mut out = dict.clone();
    out.extend_from_slice(&[0u8; 10]);
    let mut dec = start_decompress(out.len(), false, BLOCK_LEN).unwrap();
    let mut c = vec![0x40, 0x06];
    c.extend_from_slice(&payload);
    assert_eq!(run_to_end(&mut dec, &c, &mut out).unwrap(), BLOCK_LEN + 10);
    assert_eq!(&out[..BLOCK_LEN], &dict[..]);
    assert_eq!(&out[BLOCK_LEN..], &payload[..]);
}

#[test]
fn quantum_after_dictionary() {
    let mut out = vec![7u8; BLOCK_LEN + 20];
    let mut c = vec![0x00, 0x06, 0x00, 0x00, 0x09];
    c.extend_from_slice(&bytes(10, 1));
    let mut dec = start_decompress(out.len(), false, BLOCK_LEN).unwrap();
    match dec.decode(&c, &mut out).unwrap() {
        Progress::Quantum(job) => {
            assert_eq!(job.decompressed_start, BLOCK_LEN);
            assert_eq!(job.decompressed_len, 20);
            assert_eq!(job.pos_since_reset, BLOCK_LEN);
        }
        Progress::Done(_) => panic!("expected a quantum"),
    }
    dec.finish_quantum(10).unwrap();
    assert_eq!(run_to_end(&mut dec, &c, &mut out).unwrap(), BLOCK_LEN + 20);
    assert_eq!(out[..BLOCK_LEN], vec![7u8; BLOCK_LEN][..]);
}

#[test]
fn output_before_the_start_is_done() {
    let mut out = vec![0u8; 10];
    let mut dec = Decoder::new(10, 10, false);
    assert_eq!(run_to_end(&mut dec, &[], &mut out).unwrap(), 10);
}
