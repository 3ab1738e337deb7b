//! Plain values behind the command line: options, the decisions that turn
//! raw flags into a configuration, and the small parsers the flags use.
//!
//! Reading the actual command line and standard input is the binary's job;
//! it hands the results over as the plain values declared here.

use vstd::prelude::*;

use crate::verbosity::Verbosity;

verus! {

/// When to use color in output.
#[allow(non_camel_case_types)]
#[derive(Clone, Copy, Debug, PartialEq, Eq, Structural)]
pub enum ColorOption {
    /// Always use color in output.
    ALWAYS,
    /// Never use color in output.
    NEVER,
    /// Use color when standard output is a terminal.
    AUTO,
}

/// The command line as parsed: raw flags, before any decision is applied.
pub struct CLIArgs {
    /// When to use colored output.
    pub color: ColorOption,
    /// How many times the verbose flag was given.
    pub verbose: u8,
    /// Silence all output that is not an error; overrides the verbose flags.
    pub quiet: bool,
    /// Sort results by status, then alphabetically, before display.
    pub sort: bool,
    /// Files to process; when empty, paths are read from standard input.
    pub files: Vec<String>,
}

/// The resolved configuration the rest of the program runs on.
pub struct CommandArgs {
    /// The paths to evaluate, in the order they were supplied.
    pub files: Vec<String>,
    /// When to use colored output.
    pub color: ColorOption,
    /// Whether results are sorted before display.
    pub sort: bool,
    /// The resolved output verbosity.
    pub verbosity: Verbosity,
}

/// The verbosity the flags resolve to: quiet wins over any number of
/// verbose flags; any verbose flag without quiet means verbose.
pub open spec fn verbosity_choice(quiet: bool, verbose: u8) -> Verbosity {
    if quiet {
        Verbosity::QUIET
    } else if verbose > 0 {
        Verbosity::VERBOSE
    } else {
        Verbosity::NORMAL
    }
}

/// Resolve the quiet and verbose flags to one verbosity level.
pub fn choose_verbosity(quiet: bool, verbose: u8) -> (v: Verbosity)
    ensures
        v == verbosity_choice(quiet, verbose),
{
    if quiet {
        Verbosity::QUIET
    } else if verbose > 0 {
        Verbosity::VERBOSE
    } else {
        Verbosity::NORMAL
    }
}

/// Paths come from standard input exactly when none were named on the
/// command line and standard input is not a terminal.
pub fn reads_stdin(no_files_named: bool, stdin_is_terminal: bool) -> (r: bool)
    ensures
        r == (no_files_named && !stdin_is_terminal),
{
    no_files_named && !stdin_is_terminal
}

/// Whether a character counts as whitespace, as `char::is_whitespace`
/// decides it.
pub uninterp spec fn is_space_of(c: char) -> bool;

/// Relies on `char::is_whitespace`: whether the character has the Unicode
/// `White_Space` property. The result depends on the character alone.
#[verifier::external_body]
fn char_is_space(c: char) -> (r: bool)
    ensures
        r == is_space_of(c),
{
    c.is_whitespace()
}

/// A line is blank when every character in it is whitespace; the empty
/// line is blank.
pub open spec fn blank_line(s: Seq<char>) -> bool {
    forall|i: int| 0 <= i < s.len() ==> is_space_of(#[trigger] s[i])
}

/// Whether a line read from standard input names a path to process: blank
/// lines are discarded.
pub fn keep_input_line(line: &str) -> (r: bool)
    ensures
        r == !blank_line(line@),
{
    let n = line.unicode_len();
    let mut i: usize = 0;
    while i < n
        invariant
            i <= n,
            n == line@.len(),
            forall|k: int| 0 <= k < i ==> is_space_of(#[trigger] line@[k]),
        decreases n - i,
    {
        let c = line.get_char(i);
        if !char_is_space(c) {
            return true;
        }
        i = i + 1;
    }
    false
}

/// The lowercase form of a string, as `str::to_lowercase` computes it.
pub uninterp spec fn lower_of(s: Seq<char>) -> Seq<char>;

/// Relies on `str::to_lowercase`: the Unicode lowercase form of the
/// string. The result depends on the characters alone.
#[verifier::external_body]
fn lowercase(s: &str) -> (r: String)
    ensures
        r@ == lower_of(s@),
{
    s.to_lowercase()
}

/// Which boolean, if any, a lowercased token names.
pub open spec fn bool_token(s: Seq<char>) -> Option<bool> {
    if s == "true"@ || s == "1"@ || s == "yes"@ || s == "y"@ {
        Some(true)
    } else if s == "false"@ || s == "0"@ || s == "no"@ || s == "n"@ {
        Some(false)
    } else {
        None
    }
}

/// Recognize an already-lowercased boolean token.
pub fn parse_bool_token(lowered: &String) -> (r: Option<bool>)
    ensures
        r == bool_token(lowered@),
{
    if *lowered == "true".to_owned() || *lowered == "1".to_owned() || *lowered
        == "yes".to_owned() || *lowered == "y".to_owned() {
        Some(true)
    } else if *lowered == "false".to_owned() || *lowered == "0".to_owned() || *lowered
        == "no".to_owned() || *lowered == "n".to_owned() {
        Some(false)
    } else {
        None
    }
}

/// Relies on the `format` macro: concatenates the fixed prefix and the
/// rejected input into one message.
#[verifier::external_body]
fn invalid_bool_message(src: &str) -> (r: String)
    ensures
        r@ == "invalid boolean value: "@ + src@,
{
    format!("invalid boolean value: {}", src)
}

/// Parse a boolean flag value, case-insensitively: `true`, `1`, `yes` and
/// `y` mean true; `false`, `0`, `no` and `n` mean false; anything else is
/// rejected with a message naming the input.
pub fn parse_bool(src: &str) -> (r: Result<bool, String>)
    ensures
        (match r {
            Ok(b) => bool_token(lower_of(src@)) == Some(b),
            Err(m) => bool_token(lower_of(src@)) is None && m@ == "invalid boolean value: "@
                + src@,
        }),
{
    let lowered = lowercase(src);
    match parse_bool_token(&lowered) {
        Some(b) => Ok(b),
        None => Err(invalid_bool_message(src)),
    }
}

} // verus!
