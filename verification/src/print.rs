//! Display policy: which outcomes are shown at which verbosity, and when
//! color is used. Rendering itself happens outside the engine.

use vstd::prelude::*;

use crate::args::ColorOption;
use crate::status::STATUS;
use crate::verbosity::Verbosity;

verus! {

/// The display policy of one run: whether color is used and how verbose
/// the output is. It decides; the actual writing is the caller's.
#[derive(Clone, Copy, Debug)]
pub struct Printer {
    /// Whether messages are rendered with color.
    pub use_color: bool,
    /// The verbosity level output is filtered against.
    pub verbosity_level: Verbosity,
}

impl Printer {
    /// Whether output is colored: always, never, or — automatically —
    /// exactly when standard output is a terminal.
    pub open spec fn color_choice(option: ColorOption, stdout_is_terminal: bool) -> bool {
        match option {
            ColorOption::ALWAYS => true,
            ColorOption::NEVER => false,
            ColorOption::AUTO => stdout_is_terminal,
        }
    }

    /// Fix the display policy from the color option, the chosen verbosity,
    /// and whether standard output is a terminal.
    pub fn new(color_option: &ColorOption, verbosity_level: Verbosity, stdout_is_terminal: bool) -> (p:
        Printer)
        ensures
            p.use_color == Self::color_choice(*color_option, stdout_is_terminal),
            p.verbosity_level == verbosity_level,
    {
        let use_color = match color_option {
            ColorOption::ALWAYS => true,
            ColorOption::NEVER => false,
            ColorOption::AUTO => stdout_is_terminal,
        };
        Printer { use_color, verbosity_level }
    }

    /// Whether a message is shown: its required verbosity must not exceed
    /// the level this printer was fixed at.
    pub fn should_print(&self, message_verbosity: &Verbosity) -> (r: bool)
        ensures
            r == (message_verbosity.rank_spec() <= self.verbosity_level.rank_spec()),
    {
        message_verbosity.rank() <= self.verbosity_level.rank()
    }
}

/// The least verbosity at which an outcome of the given status is shown:
/// errors are never suppressed, even in quiet mode; successes and benign
/// skips appear from normal on; warnings only in verbose mode.
pub open spec fn display_threshold(status: STATUS) -> Verbosity {
    match status {
        STATUS::SUCCESS => Verbosity::NORMAL,
        STATUS::WARN => Verbosity::VERBOSE,
        STATUS::SKIP => Verbosity::NORMAL,
        STATUS::ERROR => Verbosity::QUIET,
    }
}

/// Executable form of [`display_threshold`].
pub fn required_verbosity(status: &STATUS) -> (v: Verbosity)
    ensures
        v == display_threshold(*status),
{
    match status {
        STATUS::SUCCESS => Verbosity::NORMAL,
        STATUS::WARN => Verbosity::VERBOSE,
        STATUS::SKIP => Verbosity::NORMAL,
        STATUS::ERROR => Verbosity::QUIET,
    }
}

} // verus!
