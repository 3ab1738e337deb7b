//! Output verbosity levels and their order.

use vstd::prelude::*;

verus! {

/// How much output the caller asked for: `QUIET < NORMAL < VERBOSE`.
#[allow(non_camel_case_types)]
#[derive(Clone, Copy, Debug, PartialEq, Eq, Structural)]
pub enum Verbosity {
    QUIET,
    NORMAL,
    VERBOSE,
}

impl Verbosity {
    /// The level as a number: `QUIET` lowest, `VERBOSE` highest.
    pub open spec fn rank_spec(self) -> int {
        match self {
            Verbosity::QUIET => 0,
            Verbosity::NORMAL => 1,
            Verbosity::VERBOSE => 2,
        }
    }

    /// Executable form of the level number.
    pub fn rank(&self) -> (r: u8)
        ensures
            r as int == self.rank_spec(),
    {
        match self {
            Verbosity::QUIET => 0,
            Verbosity::NORMAL => 1,
            Verbosity::VERBOSE => 2,
        }
    }
}

} // verus!
