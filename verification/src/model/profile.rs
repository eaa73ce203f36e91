use vstd::prelude::*;

verus! {

/// Decode profile to target.
#[derive(Clone, Copy, Debug, PartialEq, Eq, Hash, Structural)]
pub enum Profile {
    /// Main profile (all current features allowed).
    Main,
    /// Reduced profile (Kraken only, limited feature set).
    Reduced,
}

impl Default for Profile {
    fn default() -> (r: Self)
        ensures
            r == Profile::Main,
    {
        Profile::Main
    }
}

} // verus!
