//! Helpers: buffer size arithmetic, the quantum checksum and four-lane vectors.
pub mod compression;
pub mod copy;
pub mod crc;
pub mod vec;
