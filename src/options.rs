use vstd::prelude::*;

verus! {

/// The viewer's command line.
#[derive(Debug)]
pub struct Options {
    /// Turns off message output.
    pub quiet: bool,
    /// How much to log: each `-v` adds one.
    pub verbose: usize,
    /// The document to show.
    pub file: String,
    /// The document's password; empty when it has none.
    pub password: String,
}

} // verus!
