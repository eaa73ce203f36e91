//! The checks that start decompression.
use vstd::prelude::*;

use crate::decoder::{ready, Decoder, DecoderView};
use crate::error::{Error, ErrorView, Result};
use crate::BLOCK_LEN;

verus! {

/// Checks the arguments of a decompression into an output of
/// `decompressed_len` bytes, whose first `dictionary_len` bytes hold a base
/// dictionary, and returns the decoder that runs it.
///
/// The output must not be empty, and the dictionary must be a whole number of
/// blocks. Decoding starts after the dictionary, which it only reads, and
/// takes blocks up to the end of the output: `decompressed_len -
/// dictionary_len` is the size of the decompressed data. `check_crc` selects whether
/// quantum CRCs are checked, so that decoding stops where corruption is
/// detected.
pub fn start_decompress(decompressed_len: usize, check_crc: bool, dictionary_len: usize) -> (r:
    Result<Decoder>)
    ensures
        decompressed_len == 0 ==> (r matches Err(e) && e@ == ErrorView::EmptyBuffer(
            "decompressed buffer is empty"@,
        )),
        decompressed_len != 0 && dictionary_len % BLOCK_LEN != 0 ==> (r matches Err(e) && e@
            == ErrorView::InvalidDictionaryLength(
            "dictionary length must be a multiple of 262144"@,
        )),
        decompressed_len != 0 && dictionary_len % BLOCK_LEN == 0 ==> (r matches Ok(d) && d@ == (
        DecoderView {
            compressed_pos: 0,
            decompressed_pos: dictionary_len,
            dictionary_len: decompressed_len,
            check_crc,
            header: None,
            reset_pos: None,
            pending: None,
        })),
        r matches Ok(d) ==> forall|clen: nat|
            clen <= usize::MAX ==> #[trigger] ready(d@, clen, decompressed_len as nat),
{
    if decompressed_len == 0 {
        return Err(Error::EmptyBuffer("decompressed buffer is empty"));
    }
    if dictionary_len % BLOCK_LEN != 0 {
        return Err(
            Error::InvalidDictionaryLength("dictionary length must be a multiple of 262144"),
        );
    }
    Ok(Decoder::new(dictionary_len, decompressed_len, check_crc))
}

} // verus!
