//! Ensure that files end with a single trailing newline byte (a "feedline").
//!
//! The crate holds the decision engine of the tool: classifying a path by
//! what the filesystem showed about it, deciding the minimal repair (append
//! one `\n` byte, or nothing), collecting one outcome per input path, and
//! ordering outcomes for display. All filesystem probing, argument parsing
//! and terminal rendering live in the surrounding binary, which feeds the
//! engine plain values and carries out the one append it may request.

pub mod args;
pub mod config;
pub mod feedline;
pub mod feedline_result;
pub mod print;
pub mod status;
pub mod text;
pub mod verbosity;
