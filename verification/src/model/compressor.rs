use vstd::prelude::*;

verus! {

/// Compression algorithm.
#[derive(Debug, Clone, Copy, PartialEq, Eq, Structural)]
pub enum Compressor {
    /// Fast decompression and high compression ratios.
    Kraken,
    /// Kraken's big brother with higher compression, slightly slower
    /// decompression.
    Leviathan,
    /// Between Kraken and Selkie: very fast, still decent compression.
    Mermaid,
    /// A super-fast relative of Mermaid, for maximum decode speed.
    Selkie,
    /// Leviathan, Kraken, Mermaid, or Selkie, chosen per block.
    Hydra,
}

impl Default for Compressor {
    fn default() -> (r: Self)
        ensures
            r == Compressor::Kraken,
    {
        Compressor::Kraken
    }
}

} // verus!
