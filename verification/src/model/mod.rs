//! Compressor choices and compression settings.
mod compress_options;
mod compression_level;
mod compressor;
mod jobify;
mod profile;

pub use compress_options::{CompressOptions, CompressOptionsBuilder, CompressOptionsView};
pub use compression_level::CompressionLevel;
pub use compressor::Compressor;
pub use jobify::Jobify;
pub use profile::Profile;
