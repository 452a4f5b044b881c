use vstd::prelude::*;

verus! {

/// Settings given on the command line.
pub struct Cli {
    /// Length of the rolling window, in seconds.
    pub duration: usize,
    /// Time pattern that names saved files.
    pub format: String,
}

} // verus!
