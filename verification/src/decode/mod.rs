//! Decoding of quanta: errors, literal types and the chunk layout of Kraken
//! quanta.
pub mod error;
pub mod literal_type;
pub mod newlz;
pub mod quantum;
