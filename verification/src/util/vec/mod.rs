//! Four-lane vectors of integers.
mod vec4d;

pub use vec4d::{rotate_left_word, rotl16, rotl32, rotl64, rotl8, rotl_usize, Element, Vec4D};
