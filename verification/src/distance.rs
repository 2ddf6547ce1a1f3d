//! The edit distance of two strings, and what follows from its definition.

use vstd::prelude::*;

verus! {

/// The Levenshtein distance: the least number of single-character
/// insertions, deletions and substitutions that turn `a` into `b`.
pub open spec fn levenshtein(a: Seq<char>, b: Seq<char>) -> nat
    decreases a.len() + b.len(),
{
    if a.len() == 0 {
        b.len()
    } else if b.len() == 0 {
        a.len()
    } else {
        let substituted = levenshtein(a.drop_last(), b.drop_last()) + if a.last() == b.last() {
            0nat
        } else {
            1nat
        };
        let deleted = levenshtein(a.drop_last(), b) + 1;
        let inserted = levenshtein(a, b.drop_last()) + 1;
        if substituted <= deleted && substituted <= inserted {
            substituted
        } else if deleted <= inserted {
            deleted
        } else {
            inserted
        }
    }
}

/// Calls `stringzilla::sz::edit_distance_utf8`, which computes the
/// Levenshtein distance of two strings in characters, without an upper bound.
/// The routine needs scratch memory; the contract speaks of the runs in which
/// it gets it (without it, it reports the largest `usize`).
#[verifier::external_body]
pub(crate) fn edit_distance(a: &str, b: &str) -> (d: usize)
    ensures
        d == levenshtein(a@, b@),
{
    stringzilla::sz::edit_distance_utf8(a, b)
}

/// The number of positions at which two strings of one length differ.
pub open spec fn mismatches(a: Seq<char>, b: Seq<char>) -> nat
    recommends
        a.len() == b.len(),
    decreases a.len(),
{
    if a.len() == 0 || b.len() == 0 {
        0
    } else if a.last() == b.last() {
        mismatches(a.drop_last(), b.drop_last())
    } else {
        mismatches(a.drop_last(), b.drop_last()) + 1
    }
}

/// The distance of two strings of one length is at most the number of
/// positions at which they differ: each can be substituted.
pub proof fn lemma_distance_at_most_mismatches(a: Seq<char>, b: Seq<char>)
    requires
        a.len() == b.len(),
    ensures
        levenshtein(a, b) <= mismatches(a, b),
    decreases a.len(),
{
    if a.len() > 0 {
        lemma_distance_at_most_mismatches(a.drop_last(), b.drop_last());
    }
}

/// A string is at distance 0 from itself.
pub proof fn lemma_distance_to_itself(a: Seq<char>)
    ensures
        levenshtein(a, a) == 0,
    decreases a.len(),
{
    if a.len() > 0 {
        lemma_distance_to_itself(a.drop_last());
    }
}

/// Only equal strings are at distance 0.
pub proof fn lemma_distance_zero_means_equal(a: Seq<char>, b: Seq<char>)
    requires
        levenshtein(a, b) == 0,
    ensures
        a == b,
    decreases a.len() + b.len(),
{
    if a.len() == 0 || b.len() == 0 {
        assert(a =~= b);
    } else {
        lemma_distance_zero_means_equal(a.drop_last(), b.drop_last());
        assert(a =~= a.drop_last().push(a.last()));
        assert(b =~= b.drop_last().push(b.last()));
    }
}

/// The distance is at least the difference of the lengths: each edit
/// changes the length by one at most.
pub proof fn lemma_distance_at_least_length_gap(a: Seq<char>, b: Seq<char>)
    ensures
        levenshtein(a, b) >= a.len() - b.len(),
        levenshtein(a, b) >= b.len() - a.len(),
    decreases a.len() + b.len(),
{
    if a.len() > 0 && b.len() > 0 {
        lemma_distance_at_least_length_gap(a.drop_last(), b.drop_last());
        lemma_distance_at_least_length_gap(a.drop_last(), b);
        lemma_distance_at_least_length_gap(a, b.drop_last());
    }
}

} // verus!
