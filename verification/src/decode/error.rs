use vstd::prelude::*;

verus! {

/// Result type of quantum decoding.
pub type DecodeResult<T> = core::result::Result<T, DecodeError>;

/// Error type of quantum decoding.
#[derive(Debug)]
pub enum DecodeError {
    /// Decompression failed.
    DecompressionFailed,
    /// Decompression error.
    DecompressionError(String),
    /// Invalid literal type.
    InvalidLiteralType(usize),
    /// Invalid compressed data.
    InvalidCompressedData(&'static str),
}

/// The value of a [`DecodeError`]: the same variants, with each text taken as
/// its sequence of characters.
pub enum DecodeErrorView {
    /// See [`DecodeError::DecompressionFailed`].
    DecompressionFailed,
    /// See [`DecodeError::DecompressionError`].
    DecompressionError(Seq<char>),
    /// See [`DecodeError::InvalidLiteralType`].
    InvalidLiteralType(usize),
    /// See [`DecodeError::InvalidCompressedData`].
    InvalidCompressedData(Seq<char>),
}

impl View for DecodeError {
    type V = DecodeErrorView;

    open spec fn view(&self) -> DecodeErrorView {
        match self {
            DecodeError::DecompressionFailed => DecodeErrorView::DecompressionFailed,
            DecodeError::DecompressionError(s) => DecodeErrorView::DecompressionError(s@),
            DecodeError::InvalidLiteralType(n) => DecodeErrorView::InvalidLiteralType(*n),
            DecodeError::InvalidCompressedData(s) => DecodeErrorView::InvalidCompressedData(s@),
        }
    }
}

} // verus!
