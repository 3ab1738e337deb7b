//! The classification-and-repair decision engine.
//!
//! The caller probes the filesystem and reports, per path, what it found as
//! an [`Assessment`]. The engine decides the outcome and, for one single
//! case, directs the caller to append a newline byte ([`append_required`]).
//! The byte-level effect of that append is captured by the [`repaired`]
//! model, so that the engine's promises about file content are stated and
//! proved over it.

use vstd::prelude::*;

use crate::feedline_result::{FeedlineResult, OutcomeView};
use crate::status::STATUS;

verus! {

/// Everything the filesystem showed about one path, reduced to a plain
/// value. The checks that produce it follow a fixed precedence: existence
/// first, then directory, then symlink, then regular-file kind, then the
/// probe of the file itself.
#[derive(Clone, Copy, Debug, PartialEq, Eq, Structural)]
pub enum Assessment {
    /// The path does not exist, or its metadata could not be read.
    Missing,
    /// The path is a directory.
    Directory,
    /// The path is a symbolic link; links are never followed or mutated.
    Symlink,
    /// The path exists but is not a regular file (device, socket, ...).
    NotRegular,
    /// The file is eligible, but opening, seeking or reading it failed.
    IoFailure,
    /// The file is a regular, empty file; there is no last byte to fix.
    EmptyFile,
    /// The file is a regular, non-empty file with this final byte.
    LastByte(u8),
}

/// The one mutation the engine may direct: append a single `\n` byte. It is
/// required exactly when the file is regular, non-empty, and its last byte
/// is not already a newline.
pub open spec fn append_needed(a: Assessment) -> bool {
    match a {
        Assessment::LastByte(b) => b != 10,
        _ => false,
    }
}

/// The status of the outcome, given the assessment and whether the append
/// (if one was required) succeeded.
pub open spec fn status_of(a: Assessment, write_ok: bool) -> STATUS {
    match a {
        Assessment::Missing => STATUS::ERROR,
        Assessment::Directory => STATUS::SKIP,
        Assessment::Symlink => STATUS::WARN,
        Assessment::NotRegular => STATUS::ERROR,
        Assessment::IoFailure => STATUS::ERROR,
        Assessment::EmptyFile => STATUS::SKIP,
        Assessment::LastByte(b) => if b == 10 {
            STATUS::SKIP
        } else if write_ok {
            STATUS::SUCCESS
        } else {
            STATUS::ERROR
        },
    }
}

/// The detail message of the outcome; a plain success carries none.
pub open spec fn message_of(a: Assessment, write_ok: bool) -> Option<Seq<char>> {
    match a {
        Assessment::Missing => Some("path does not exist"@),
        Assessment::Directory => Some("path is a directory"@),
        Assessment::Symlink => Some("path is a symlink"@),
        Assessment::NotRegular => Some("path is not a file"@),
        Assessment::IoFailure => Some("failed checking feedline"@),
        Assessment::EmptyFile => Some("file is empty"@),
        Assessment::LastByte(b) => if b == 10 {
            Some("file already has a feedline"@)
        } else if write_ok {
            None
        } else {
            Some("failed checking feedline"@)
        },
    }
}

/// The full outcome for one path, as a mathematical value.
pub open spec fn outcome_of(file: Seq<char>, a: Assessment, write_ok: bool) -> OutcomeView {
    OutcomeView { status: status_of(a, write_ok), file: file, message: message_of(a, write_ok) }
}

/// Whether the caller must append a newline byte before reporting the
/// assessment back. For every other assessment the engine directs no
/// mutation at all, so the path's file (if any) stays as it is.
pub fn append_required(a: &Assessment) -> (r: bool)
    ensures
        r == append_needed(*a),
{
    match a {
        Assessment::LastByte(b) => *b != 10,
        _ => false,
    }
}

/// Whether a final byte calls for a repair: anything but `\n` (0x0A) does.
/// A file ending in `\r\n` counts as terminated; only the very last byte is
/// inspected.
pub fn needs_feedline(last_byte: u8) -> (r: bool)
    ensures
        r == (last_byte != 10),
{
    last_byte != 10
}

/// Decide the outcome for one path from what the filesystem showed.
///
/// `write_ok` reports whether the append succeeded; it is read only when
/// [`append_needed`] holds of the assessment, and callers that were not
/// directed to append pass `true`.
///
/// Known limitation: a failed append surfaces as an error outcome, but the
/// file is left in whatever state the failing write left it; no rollback
/// is attempted.
pub fn fix_file(file: String, assessment: Assessment, write_ok: bool) -> (r: FeedlineResult)
    ensures
        r@ == outcome_of(file@, assessment, write_ok),
{
    match assessment {
        Assessment::Missing => FeedlineResult {
            status: STATUS::ERROR,
            file,
            message: Some("path does not exist".to_owned()),
        },
        Assessment::Directory => FeedlineResult {
            status: STATUS::SKIP,
            file,
            message: Some("path is a directory".to_owned()),
        },
        Assessment::Symlink => FeedlineResult {
            status: STATUS::WARN,
            file,
            message: Some("path is a symlink".to_owned()),
        },
        Assessment::NotRegular => FeedlineResult {
            status: STATUS::ERROR,
            file,
            message: Some("path is not a file".to_owned()),
        },
        Assessment::IoFailure => FeedlineResult {
            status: STATUS::ERROR,
            file,
            message: Some("failed checking feedline".to_owned()),
        },
        Assessment::EmptyFile => FeedlineResult {
            status: STATUS::SKIP,
            file,
            message: Some("file is empty".to_owned()),
        },
        Assessment::LastByte(b) => {
            if !needs_feedline(b) {
                FeedlineResult {
                    status: STATUS::SKIP,
                    file,
                    message: Some("file already has a feedline".to_owned()),
                }
            } else if write_ok {
                FeedlineResult { status: STATUS::SUCCESS, file, message: None }
            } else {
                FeedlineResult {
                    status: STATUS::ERROR,
                    file,
                    message: Some("failed checking feedline".to_owned()),
                }
            }
        },
    }
}

/// One path together with what the filesystem showed about it and whether
/// the append, if one was directed, succeeded.
pub struct PathCheck {
    pub file: String,
    pub assessment: Assessment,
    pub write_ok: bool,
}

/// The outcome a single check determines, independent of every other check.
pub open spec fn outcome_of_check(c: PathCheck) -> OutcomeView {
    outcome_of(c.file@, c.assessment, c.write_ok)
}

/// The outcomes of a whole batch: one per check, in order, each a function
/// of its own check alone.
pub open spec fn outcomes_of(checks: Seq<PathCheck>) -> Seq<OutcomeView> {
    checks.map_values(|c: PathCheck| outcome_of_check(c))
}

/// Evaluate a batch of checks, one outcome per check, in input order. No
/// check's outcome depends on any other check, and an error on one path
/// never stops the paths after it.
pub fn fix_files(checks: Vec<PathCheck>) -> (results: Vec<FeedlineResult>)
    ensures
        results@.len() == checks@.len(),
        forall|i: int|
            0 <= i < checks@.len() ==> (#[trigger] results@[i])@ == outcomes_of(checks@)[i],
{
    let mut results: Vec<FeedlineResult> = Vec::new();
    let mut remaining = checks;
    let ghost all = remaining@;
    let total = remaining.len();
    let mut done: usize = 0;
    while remaining.len() > 0
        invariant
            all.len() == total,
            done + remaining@.len() == all.len(),
            remaining@ =~= all.skip(done as int),
            results@.len() == done,
            forall|i: int| 0 <= i < done ==> (#[trigger] results@[i])@ == outcomes_of(all)[i],
        decreases remaining@.len(),
    {
        let check = remaining.remove(0);
        assert(check == all[done as int]);
        let result = fix_file(check.file, check.assessment, check.write_ok);
        results.push(result);
        proof {
            assert(all.skip(done as int).remove(0) =~= all.skip(done + 1));
        }
        done = done + 1;
    }
    results
}

/// The byte-level effect of evaluating one eligible file on its content:
/// empty and newline-terminated files stay as they are, every other file
/// grows by exactly one `\n` byte at the end. Nothing else is ever written.
pub open spec fn repaired(content: Seq<u8>) -> Seq<u8> {
    if content.len() == 0 {
        content
    } else if content.last() == 10 {
        content
    } else {
        content.push(10)
    }
}

/// Executable form of the [`repaired`] model, for callers that hold a
/// file's bytes.
pub fn repaired_bytes(content: &Vec<u8>) -> (r: Vec<u8>)
    ensures
        r@ == repaired(content@),
{
    let mut out: Vec<u8> = Vec::new();
    let mut i: usize = 0;
    while i < content.len()
        invariant
            i <= content@.len(),
            out@ =~= content@.subrange(0, i as int),
        decreases content@.len() - i,
    {
        out.push(content[i]);
        i = i + 1;
    }
    proof {
        assert(out@ =~= content@);
    }
    if out.len() > 0 && needs_feedline(out[out.len() - 1]) {
        out.push(10);
    }
    out
}

/// A repaired non-terminated file keeps every byte it had, in order, grows
/// by exactly one byte, and now ends with a newline.
pub proof fn lemma_repair_appends(content: Seq<u8>)
    requires
        content.len() > 0,
        content.last() != 10,
    ensures
        repaired(content).len() == content.len() + 1,
        repaired(content).subrange(0, content.len() as int) == content,
        repaired(content).last() == 10,
{
    assert(repaired(content).subrange(0, content.len() as int) =~= content);
}

/// A file that already ends with a newline is left byte-for-byte unchanged.
pub proof fn lemma_repair_preserves_terminated(content: Seq<u8>)
    requires
        content.len() > 0,
        content.last() == 10,
    ensures
        repaired(content) == content,
{
}

/// An empty file is left unchanged: there is no last byte to inspect, and
/// no newline is invented for it.
pub proof fn lemma_repair_preserves_empty(content: Seq<u8>)
    requires
        content.len() == 0,
    ensures
        repaired(content) == content,
{
}

/// Repairing twice yields the same content as repairing once.
pub proof fn lemma_repair_idempotent(content: Seq<u8>)
    ensures
        repaired(repaired(content)) == repaired(content),
{
}

/// After one repair the file is newline-terminated, so a second run
/// directs no append and decides `SKIP`.
pub proof fn lemma_second_run_skips(content: Seq<u8>)
    requires
        content.len() > 0,
    ensures
        repaired(content).last() == 10,
        !append_needed(Assessment::LastByte(repaired(content).last())),
        status_of(Assessment::LastByte(repaired(content).last()), true) == STATUS::SKIP,
{
}

/// The engine's append decision matches the byte model exactly: the content
/// changes precisely when the last byte read was not a newline, and then
/// only by the one appended byte.
pub proof fn lemma_decision_matches_model(content: Seq<u8>, b: u8)
    requires
        content.len() > 0,
        content.last() == b,
    ensures
        repaired(content) == if append_needed(Assessment::LastByte(b)) {
            content.push(10)
        } else {
            content
        },
{
}

/// Splitting a batch anywhere splits its outcomes the same way: each
/// check's outcome is a function of that check alone.
pub proof fn lemma_batch_split(a: Seq<PathCheck>, b: Seq<PathCheck>)
    ensures
        outcomes_of(a + b) == outcomes_of(a) + outcomes_of(b),
{
    assert(outcomes_of(a + b) =~= outcomes_of(a) + outcomes_of(b));
}

/// Feeding the checks through in any index order reorders the outcomes in
/// exactly that way: evaluation order cannot change any outcome.
pub proof fn lemma_batch_reorder(checks: Seq<PathCheck>, order: Seq<int>)
    requires
        forall|j: int| 0 <= j < order.len() ==> 0 <= #[trigger] order[j] < checks.len(),
    ensures
        outcomes_of(order.map_values(|i: int| checks[i])) == order.map_values(
            |i: int| outcomes_of(checks)[i],
        ),
{
    assert(outcomes_of(order.map_values(|i: int| checks[i])) =~= order.map_values(
        |i: int| outcomes_of(checks)[i],
    ));
}

/// Batch isolation: two batches that hold the same checks, in whatever
/// order, determine the same collection of outcomes. Evaluating a batch
/// sequentially or spread over workers can differ only in the order the
/// outcomes arrive.
pub proof fn lemma_batch_order_irrelevant(c1: Seq<PathCheck>, c2: Seq<PathCheck>)
    requires
        c1.to_multiset() == c2.to_multiset(),
    ensures
        outcomes_of(c1).to_multiset() == outcomes_of(c2).to_multiset(),
    decreases c1.len(),
{
    broadcast use vstd::seq_lib::group_to_multiset_ensures;
    broadcast use vstd::multiset::group_multiset_axioms;

    if c1.len() == 0 {
        if c2.len() > 0 {
            assert(c2.to_multiset().count(c2[0]) > 0);
            assert(false);
        }
        assert(outcomes_of(c1) =~= Seq::<OutcomeView>::empty());
        assert(outcomes_of(c2) =~= Seq::<OutcomeView>::empty());
    } else {
        let x = c1.last();
        assert(c1 =~= c1.drop_last().push(x));
        assert(c1.drop_last().push(x).to_multiset() == c1.drop_last().to_multiset().insert(x));
        assert(c2.to_multiset().count(x) > 0);
        assert(c2.contains(x));
        let i = choose|i: int| 0 <= i < c2.len() && c2[i] == x;
        assert(c2.remove(i).to_multiset() == c2.to_multiset().remove(x));
        assert(c1.drop_last().to_multiset() =~= c2.remove(i).to_multiset());
        lemma_batch_order_irrelevant(c1.drop_last(), c2.remove(i));
        let o1 = outcomes_of(c1);
        let o2 = outcomes_of(c2);
        assert(o1 =~= outcomes_of(c1.drop_last()).push(outcome_of_check(x)));
        assert(outcomes_of(c2.remove(i)) =~= o2.remove(i));
        assert(o2.remove(i).to_multiset() == o2.to_multiset().remove(o2[i]));
        assert(o2[i] == outcome_of_check(x));
        assert(o2.to_multiset().count(o2[i]) > 0);
        assert(o1.to_multiset() == outcomes_of(c1.drop_last()).to_multiset().insert(
            outcome_of_check(x),
        ));
        assert(o1.to_multiset() =~= o2.to_multiset());
    }
}

/// Whether any outcome in a batch is an error: this is what drives the
/// process's non-zero exit status.
pub fn any_error(results: &Vec<FeedlineResult>) -> (r: bool)
    ensures
        r == exists|i: int| 0 <= i < results@.len() && (#[trigger] results@[i]).status == STATUS::ERROR,
{
    let mut i: usize = 0;
    while i < results.len()
        invariant
            i <= results@.len(),
            forall|k: int| 0 <= k < i ==> (#[trigger] results@[k]).status != STATUS::ERROR,
        decreases results@.len() - i,
    {
        let is_error = match results[i].status {
            STATUS::ERROR => true,
            _ => false,
        };
        if is_error {
            return true;
        }
        i = i + 1;
    }
    false
}

} // verus!
