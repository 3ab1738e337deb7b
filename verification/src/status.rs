//! The closed set of per-path outcome categories and their fixed rank.

use vstd::prelude::*;

verus! {

/// Outcome category for one evaluated path.
///
/// The set is closed and carries one canonical total order, used when
/// results are sorted for display: `SUCCESS < SKIP < WARN < ERROR`
/// (a warning ranks above a benign skip).
#[allow(non_camel_case_types)]
#[derive(Clone, Copy, Debug, PartialEq, Eq, Structural)]
pub enum STATUS {
    SUCCESS,
    WARN,
    SKIP,
    ERROR,
}

impl STATUS {
    /// The canonical sort rank: `SUCCESS` lowest, `ERROR` highest.
    pub open spec fn rank_spec(self) -> int {
        match self {
            STATUS::SUCCESS => 0,
            STATUS::SKIP => 1,
            STATUS::WARN => 2,
            STATUS::ERROR => 3,
        }
    }

    /// Executable form of the canonical rank.
    pub fn rank(&self) -> (r: u8)
        ensures
            r as int == self.rank_spec(),
    {
        match self {
            STATUS::SUCCESS => 0,
            STATUS::SKIP => 1,
            STATUS::WARN => 2,
            STATUS::ERROR => 3,
        }
    }
}

} // verus!
