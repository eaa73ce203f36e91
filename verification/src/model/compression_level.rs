use vstd::prelude::*;

verus! {

/// Compression encoder complexity.
#[derive(Debug, Clone, Copy, PartialEq, Eq, Structural)]
pub enum CompressionLevel {
    /// Super fast mode, lower compression ratio.
    SuperFast,
    /// Fastest LZ mode with still decent compression ratio.
    VeryFast,
    /// Fast, good for daily use.
    Fast,
    /// Standard medium speed LZ mode.
    Normal,
    /// Optimal parse level 1 (faster optimal encoder).
    Optimal1,
    /// Optimal parse level 2 (recommended baseline optimal encoder).
    Optimal2,
    /// Optimal parse level 3 (slower optimal encoder).
    Optimal3,
    /// Optimal parse level 4 (very slow optimal encoder).
    Optimal4,
    /// Optimal parse level 5 (maximum compression).
    Optimal5,
    /// Faster than SuperFast, less compression.
    HyperFast1,
    /// Faster than HyperFast1, less compression.
    HyperFast2,
    /// Faster than HyperFast2, less compression.
    HyperFast3,
    /// Fastest, least compression.
    HyperFast4,
}

impl CompressionLevel {
    /// The first of the hyper-fast levels.
    pub const HYPER_FAST: CompressionLevel = CompressionLevel::HyperFast1;
    /// The recommended optimal level.
    pub const OPTIMAL: CompressionLevel = CompressionLevel::Optimal2;
    /// The level with the most compression.
    pub const MAX: CompressionLevel = CompressionLevel::Optimal5;
    /// The level with the least compression.
    pub const MIN: CompressionLevel = CompressionLevel::HyperFast4;
}

impl Default for CompressionLevel {
    fn default() -> (r: Self)
        ensures
            r == CompressionLevel::Normal,
    {
        CompressionLevel::Normal
    }
}

} // verus!
