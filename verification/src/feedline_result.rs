//! The structured result of evaluating one path, and the display order on
//! results.

use vstd::multiset::Multiset;
use vstd::prelude::*;

use crate::status::STATUS;
use crate::text::{lex_lt, str_lt};
use crate::text::{lemma_lex_lt_asymmetric, lemma_lex_lt_connected, lemma_lex_lt_transitive};

verus! {

/// What evaluating one input path produced: a status, the path as it was
/// supplied, and an optional human-readable detail (absent for a plain
/// success).
#[derive(Clone, Debug, PartialEq, Eq)]
pub struct FeedlineResult {
    pub status: STATUS,
    pub file: String,
    pub message: Option<String>,
}

/// The mathematical value of a [`FeedlineResult`]: the same three fields,
/// with the strings as character sequences.
#[verifier::ext_equal]
pub struct OutcomeView {
    pub status: STATUS,
    pub file: Seq<char>,
    pub message: Option<Seq<char>>,
}

impl View for FeedlineResult {
    type V = OutcomeView;

    open spec fn view(&self) -> OutcomeView {
        OutcomeView {
            status: self.status,
            file: self.file@,
            message: match self.message {
                Some(m) => Some(m@),
                None => None,
            },
        }
    }
}

/// Strict order on optional messages: an absent message comes first, present
/// messages compare lexicographically.
pub open spec fn message_lt(a: Option<Seq<char>>, b: Option<Seq<char>>) -> bool {
    match (a, b) {
        (Option::None, Option::None) => false,
        (Option::None, Option::Some(_)) => true,
        (Option::Some(_), Option::None) => false,
        (Option::Some(x), Option::Some(y)) => lex_lt(x, y),
    }
}

/// Strict display order on outcomes: by status rank first
/// (`SUCCESS < SKIP < WARN < ERROR`), ties broken lexicographically by path,
/// remaining ties by message.
pub open spec fn outcome_lt(a: OutcomeView, b: OutcomeView) -> bool {
    ||| a.status.rank_spec() < b.status.rank_spec()
    ||| (a.status.rank_spec() == b.status.rank_spec() && lex_lt(a.file, b.file))
    ||| (a.status.rank_spec() == b.status.rank_spec() && a.file == b.file && message_lt(
        a.message,
        b.message,
    ))
}

/// Non-strict display order on outcomes.
pub open spec fn outcome_le(a: OutcomeView, b: OutcomeView) -> bool {
    !outcome_lt(b, a)
}

/// A result sequence in display order: every earlier element is less than
/// or equal to every later one.
pub open spec fn results_ordered(s: Seq<FeedlineResult>) -> bool {
    forall|i: int, j: int| 0 <= i < j < s.len() ==> outcome_le(#[trigger] s[i]@, #[trigger] s[j]@)
}

/// Any two outcomes are comparable in the display order.
proof fn lemma_outcome_le_total(a: OutcomeView, b: OutcomeView)
    ensures
        outcome_le(a, b) || outcome_le(b, a),
{
    lemma_lex_lt_asymmetric(a.file, b.file);
    match (a.message, b.message) {
        (Option::Some(x), Option::Some(y)) => lemma_lex_lt_asymmetric(x, y),
        _ => (),
    }
}

/// The display order is transitive.
proof fn lemma_outcome_le_transitive(a: OutcomeView, b: OutcomeView, c: OutcomeView)
    requires
        outcome_le(a, b),
        outcome_le(b, c),
    ensures
        outcome_le(a, c),
{
    if outcome_lt(c, a) {
        lemma_lex_lt_connected(a.file, b.file);
        lemma_lex_lt_connected(b.file, c.file);
        lemma_lex_lt_connected(a.file, c.file);
        if lex_lt(c.file, a.file) {
            if !lex_lt(c.file, b.file) && !lex_lt(b.file, c.file) {
                assert(b.file == c.file);
            } else if !lex_lt(b.file, a.file) && !lex_lt(a.file, b.file) {
                assert(a.file == b.file);
            } else if lex_lt(b.file, a.file) || lex_lt(c.file, b.file) {
                assert(false);
            } else {
                lemma_lex_lt_transitive(a.file, b.file, c.file);
                lemma_lex_lt_asymmetric(a.file, c.file);
            }
        } else {
            assert(a.file == c.file);
            match (a.message, b.message, c.message) {
                (Option::Some(x), Option::Some(y), Option::Some(z)) => {
                    lemma_lex_lt_connected(x, y);
                    lemma_lex_lt_connected(y, z);
                    if lex_lt(z, x) {
                        if lex_lt(x, y) && lex_lt(y, z) {
                            lemma_lex_lt_transitive(x, y, z);
                            lemma_lex_lt_asymmetric(x, z);
                        }
                    }
                },
                _ => (),
            }
        }
    }
}

/// Compare two results in the strict display order.
pub fn result_lt(a: &FeedlineResult, b: &FeedlineResult) -> (r: bool)
    ensures
        r == outcome_lt(a@, b@),
{
    let ra = a.status.rank();
    let rb = b.status.rank();
    if ra != rb {
        return ra < rb;
    }
    if str_lt(a.file.as_str(), b.file.as_str()) {
        return true;
    }
    if str_lt(b.file.as_str(), a.file.as_str()) {
        return false;
    }
    proof {
        lemma_lex_lt_connected(a@.file, b@.file);
    }
    match (&a.message, &b.message) {
        (Option::None, Option::None) => false,
        (Option::None, Option::Some(_)) => true,
        (Option::Some(_), Option::None) => false,
        (Option::Some(x), Option::Some(y)) => str_lt(x.as_str(), y.as_str()),
    }
}

/// Sort results into the display order, in place: the output holds exactly
/// the results that came in, arranged so that statuses ascend in the
/// canonical rank, with ties broken lexicographically by path, then by
/// message. The order compares every field, so results it cannot tell
/// apart are equal and the sorted arrangement is unique.
pub fn sort_results(results: &mut Vec<FeedlineResult>)
    ensures
        final(results)@.len() == old(results)@.len(),
        results_ordered(final(results)@),
        final(results)@.to_multiset() == old(results)@.to_multiset(),
{
    broadcast use vstd::seq_lib::group_to_multiset_ensures;
    broadcast use vstd::multiset::group_multiset_axioms;

    if results.len() <= 1 {
        return ;
    }
    let ghost orig = results@;
    let mut i: usize = 1;
    while i < results.len()
        invariant
            1 <= i <= results@.len(),
            results@.len() == orig.len(),
            results@.to_multiset() == orig.to_multiset(),
            results_ordered(results@.subrange(0, i as int)),
        decreases results@.len() - i,
    {
        let ghost prev = results@;
        let x = results.remove(i);
        let ghost removed = results@;
        proof {
            assert forall|p: int, q: int| 0 <= p < q < i implies outcome_le(
                #[trigger] removed[p]@,
                #[trigger] removed[q]@,
            ) by {
                assert(removed[p] == prev.subrange(0, i as int)[p]);
                assert(removed[q] == prev.subrange(0, i as int)[q]);
            }
        }
        let mut j: usize = i;
        while j > 0 && result_lt(&x, &results[j - 1])
            invariant
                j <= i,
                i < removed.len() + 1,
                results@ == removed,
                forall|k: int| j <= k < i ==> outcome_lt(x@, #[trigger] removed[k]@),
            decreases j,
        {
            j = j - 1;
        }
        proof {
            if j > 0 {
                lemma_outcome_le_total(removed[j - 1]@, x@);
                assert(outcome_le(removed[j - 1]@, x@));
            }
        }
        results.insert(j, x);
        proof {
            let before = removed.insert(j as int, x);
            assert(results@ == before);
            // the moved element is still one of the original results
            vstd::seq_lib::to_multiset_remove(prev, i as int);
            assert(prev.contains(prev[i as int]));
            vstd::seq_lib::to_multiset_insert(removed, j as int, x);
            assert(before.to_multiset() == removed.to_multiset().insert(x));
            vstd::seq_lib::to_multiset_contains(prev, x);
            assert(prev.to_multiset().count(x) > 0);
            assert forall|v: FeedlineResult|
                before.to_multiset().count(v) == prev.to_multiset().count(v) by {
                assert(removed.to_multiset().insert(x).count(v) == removed.to_multiset().count(v)
                    + Multiset::singleton(x).count(v));
                assert(prev.to_multiset().remove(x).count(v) == prev.to_multiset().sub(
                    Multiset::singleton(x),
                ).count(v));
                if v == x {
                    assert(Multiset::singleton(x).count(v) == 1);
                } else {
                    assert(Multiset::singleton(x).count(v) == 0);
                }
            }
            assert(before.to_multiset() =~= prev.to_multiset());
            // every element left of position j is at most x
            assert forall|p: int| 0 <= p < j implies outcome_le(#[trigger] removed[p]@, x@) by {
                if p < j - 1 {
                    lemma_outcome_le_transitive(removed[p]@, removed[j - 1]@, x@);
                }
            }
            // x is below every element it was moved past
            assert forall|q: int| j <= q < i implies outcome_le(x@, #[trigger] removed[q]@) by {
                lemma_outcome_le_total(x@, removed[q]@);
                lemma_lex_lt_asymmetric(x@.file, removed[q]@.file);
                match (x@.message, removed[q]@.message) {
                    (Option::Some(m), Option::Some(n)) => lemma_lex_lt_asymmetric(m, n),
                    _ => (),
                }
            }
            assert forall|p: int, q: int| 0 <= p < q < i + 1 implies outcome_le(
                #[trigger] before[p]@,
                #[trigger] before[q]@,
            ) by {
                if q < j {
                    assert(before[p] == removed[p] && before[q] == removed[q]);
                } else if p > j {
                    assert(before[p] == removed[p - 1] && before[q] == removed[q - 1]);
                } else if p < j && q > j {
                    assert(before[p] == removed[p] && before[q] == removed[q - 1]);
                } else if q == j {
                    assert(before[q] == x && before[p] == removed[p]);
                } else {
                    assert(p == j);
                    assert(before[p] == x && before[q] == removed[q - 1]);
                }
            }
            assert(results_ordered(results@.subrange(0, i + 1))) by {
                assert(forall|p: int|
                    0 <= p < i + 1 ==> results@.subrange(0, i + 1)[p] == results@[p]);
            }
        }
        i = i + 1;
    }
    proof {
        assert(results@.subrange(0, results@.len() as int) =~= results@);
    }
}

} // verus!
