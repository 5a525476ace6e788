//! The shell's settings.
use vstd::prelude::*;

verus! {

/// Settings read at start-up.
pub struct Config {
    /// The text shown before each line of input.
    pub prompt: String,
}

impl Default for Config {
    fn default() -> (r: Self)
        ensures
            r.prompt@ == "> "@,
    {
        Config { prompt: String::from_str("> ") }
    }
}

} // verus!
