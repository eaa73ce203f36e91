use vstd::prelude::*;

verus! {

/// Controls the amount of internal threading.
#[derive(Clone, Copy, Debug, PartialEq, Eq, Hash, Structural)]
pub enum Jobify {
    /// Use the compressor's default level of internal job usage.
    Default,
    /// Balance parallelism with increased memory usage.
    Normal,
    /// Maximize parallelism even when that needs large amounts of memory.
    Aggressive,
}

impl Default for Jobify {
    fn default() -> (r: Self)
        ensures
            r == Jobify::Default,
    {
        Jobify::Default
    }
}

} // verus!
