//! Error values returned by the library.
use vstd::prelude::*;

use crate::decode::error::{DecodeError, DecodeErrorView};

verus! {

/// Result type of the library.
pub type Result<T> = core::result::Result<T, Error>;

/// Error type of the library.
#[derive(Debug)]
pub enum Error {
    /// Compression failed.
    CompressionFailed,
    /// Decompression failed.
    DecompressionFailed,
    /// Empty buffer.
    EmptyBuffer(&'static str),
    /// Invalid dictionary length.
    InvalidDictionaryLength(&'static str),
    /// Invalid dictionary base.
    InvalidDictionaryBase(&'static str),
    /// Invalid compressor.
    InvalidCompressor,
    /// Invalid input data.
    InvalidInput(&'static str),
    /// Invalid compressed data.
    InvalidCompressedData(&'static str),
    /// Invalid chunk size.
    InvalidChunkSize(usize),
    /// Invalid header.
    InvalidHeader,
    /// Unsupported chunk version.
    UnsupportedChunkVersion(u8),
    /// Invalid decompressed step.
    InvalidDecompressedStep(usize),
    /// Invalid quantum special.
    InvalidQuantumSpecial(u32),
    /// Invalid quantum length.
    InvalidQuantumLength(usize),
    /// Invalid CRC.
    InvalidCRC(String),
    /// Decompression error.
    DecompressionError(String),
    /// Invalid chunk type.
    InvalidChunkType(usize),
}

/// The mathematical value of an [`Error`]: the same variants, with each text
/// taken as its sequence of characters.
pub enum ErrorView {
    /// See [`Error::CompressionFailed`].
    CompressionFailed,
    /// See [`Error::DecompressionFailed`].
    DecompressionFailed,
    /// See [`Error::EmptyBuffer`].
    EmptyBuffer(Seq<char>),
    /// See [`Error::InvalidDictionaryLength`].
    InvalidDictionaryLength(Seq<char>),
    /// See [`Error::InvalidDictionaryBase`].
    InvalidDictionaryBase(Seq<char>),
    /// See [`Error::InvalidCompressor`].
    InvalidCompressor,
    /// See [`Error::InvalidInput`].
    InvalidInput(Seq<char>),
    /// See [`Error::InvalidCompressedData`].
    InvalidCompressedData(Seq<char>),
    /// See [`Error::InvalidChunkSize`].
    InvalidChunkSize(usize),
    /// See [`Error::InvalidHeader`].
    InvalidHeader,
    /// See [`Error::UnsupportedChunkVersion`].
    UnsupportedChunkVersion(u8),
    /// See [`Error::InvalidDecompressedStep`].
    InvalidDecompressedStep(usize),
    /// See [`Error::InvalidQuantumSpecial`].
    InvalidQuantumSpecial(u32),
    /// See [`Error::InvalidQuantumLength`].
    InvalidQuantumLength(usize),
    /// See [`Error::InvalidCRC`].
    InvalidCRC(Seq<char>),
    /// See [`Error::DecompressionError`].
    DecompressionError(Seq<char>),
    /// See [`Error::InvalidChunkType`].
    InvalidChunkType(usize),
}

impl View for Error {
    type V = ErrorView;

    open spec fn view(&self) -> ErrorView {
        match self {
            Error::CompressionFailed => ErrorView::CompressionFailed,
            Error::DecompressionFailed => ErrorView::DecompressionFailed,
            Error::EmptyBuffer(s) => ErrorView::EmptyBuffer(s@),
            Error::InvalidDictionaryLength(s) => ErrorView::InvalidDictionaryLength(s@),
            Error::InvalidDictionaryBase(s) => ErrorView::InvalidDictionaryBase(s@),
            Error::InvalidCompressor => ErrorView::InvalidCompressor,
            Error::InvalidInput(s) => ErrorView::InvalidInput(s@),
            Error::InvalidCompressedData(s) => ErrorView::InvalidCompressedData(s@),
            Error::InvalidChunkSize(n) => ErrorView::InvalidChunkSize(*n),
            Error::InvalidHeader => ErrorView::InvalidHeader,
            Error::UnsupportedChunkVersion(v) => ErrorView::UnsupportedChunkVersion(*v),
            Error::InvalidDecompressedStep(n) => ErrorView::InvalidDecompressedStep(*n),
            Error::InvalidQuantumSpecial(v) => ErrorView::InvalidQuantumSpecial(*v),
            Error::InvalidQuantumLength(n) => ErrorView::InvalidQuantumLength(*n),
            Error::InvalidCRC(s) => ErrorView::InvalidCRC(s@),
            Error::DecompressionError(s) => ErrorView::DecompressionError(s@),
            Error::InvalidChunkType(n) => ErrorView::InvalidChunkType(*n),
        }
    }
}

/// The library error that a quantum decoding error becomes: a bad literal
/// type becomes an invalid chunk type, and each other error the one of the
/// same name.
pub open spec fn error_from_decode(e: DecodeErrorView) -> ErrorView {
    match e {
        DecodeErrorView::DecompressionFailed => ErrorView::DecompressionFailed,
        DecodeErrorView::DecompressionError(s) => ErrorView::DecompressionError(s),
        DecodeErrorView::InvalidLiteralType(n) => ErrorView::InvalidChunkType(n),
        DecodeErrorView::InvalidCompressedData(s) => ErrorView::InvalidCompressedData(s),
    }
}

impl From<DecodeError> for Error {
    fn from(e: DecodeError) -> (r: Error)
        ensures
            r@ == error_from_decode(e@),
    {
        match e {
            DecodeError::DecompressionFailed => Error::DecompressionFailed,
            DecodeError::DecompressionError(s) => Error::DecompressionError(s),
            DecodeError::InvalidLiteralType(n) => Error::InvalidChunkType(n),
            DecodeError::InvalidCompressedData(s) => Error::InvalidCompressedData(s),
        }
    }
}

impl vstd::std_specs::convert::FromSpecImpl<DecodeError> for Error {
    open spec fn obeys_from_spec() -> bool {
        true
    }

    open spec fn from_spec(e: DecodeError) -> Error {
        match e {
            DecodeError::DecompressionFailed => Error::DecompressionFailed,
            DecodeError::DecompressionError(s) => Error::DecompressionError(s),
            DecodeError::InvalidLiteralType(n) => Error::InvalidChunkType(n),
            DecodeError::InvalidCompressedData(s) => Error::InvalidCompressedData(s),
        }
    }
}

} // verus!
