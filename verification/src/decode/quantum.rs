//! The check of what a quantum decoder reports.
use vstd::prelude::*;

use super::error::{DecodeError, DecodeErrorView, DecodeResult};
use crate::message::{read_mismatch_message, read_mismatch_text};

verus! {

/// What a quantum decoder that reported reading `read_bytes` compressed bytes
/// of a quantum of `compressed_len` gives: the bytes read, or the error.
pub open spec fn quantum_read_spec(read_bytes: usize, compressed_len: usize) -> core::result::Result<
    usize,
    DecodeErrorView,
> {
    if read_bytes == 0 {
        Err(DecodeErrorView::DecompressionFailed)
    } else if read_bytes != compressed_len {
        Err(DecodeErrorView::DecompressionError(read_mismatch_text(read_bytes, compressed_len)))
    } else {
        Ok(read_bytes)
    }
}

/// Checks what the decoder of a Mermaid or Leviathan quantum of
/// `compressed_len` bytes reported: it failed where it read nothing, and it
/// must have read the whole quantum.
pub fn check_quantum_read(read_bytes: usize, compressed_len: usize) -> (r: DecodeResult<usize>)
    ensures
        match quantum_read_spec(read_bytes, compressed_len) {
            Ok(n) => r == Ok::<usize, DecodeError>(n),
            Err(e) => r matches Err(err) && err@ == e,
        },
{
    if read_bytes == 0 {
        return Err(DecodeError::DecompressionFailed);
    }
    if read_bytes != compressed_len {
        return Err(DecodeError::DecompressionError(read_mismatch_message(read_bytes, compressed_len)));
    }
    Ok(read_bytes)
}

} // verus!
