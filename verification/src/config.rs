//! The minimal configuration bundle of the plain, flag-only front end.

use vstd::prelude::*;

use crate::verbosity::Verbosity;

verus! {

/// A resolved verbosity together with the paths to process; the reduced
/// configuration used where neither color nor sorting is selectable.
#[derive(Debug)]
pub struct Config {
    /// The resolved output verbosity.
    pub verbosity: Verbosity,
    /// The paths to evaluate, in the order they were supplied.
    pub files: Vec<String>,
}

impl Config {
    /// Bundle a verbosity and a path list, both kept as given.
    pub fn new(verbosity: Verbosity, files: Vec<String>) -> (c: Config)
        ensures
            c.verbosity == verbosity,
            c.files == files,
    {
        Config { verbosity, files }
    }
}

} // verus!
