//! Substring search over byte sequences: the specification of first and
//! last occurrence, and the search calls the pipeline relies on.

use vstd::prelude::*;

verus! {

/// Whether `pat` occurs in `text` at position `i`.
pub open spec fn occurs_at(text: Seq<u8>, pat: Seq<u8>, i: int) -> bool {
    &&& 0 <= i
    &&& i + pat.len() <= text.len()
    &&& text.subrange(i, i + pat.len()) == pat
}

/// Whether `pat` occurs anywhere in `text`.
pub open spec fn contains_seq(text: Seq<u8>, pat: Seq<u8>) -> bool {
    exists|i: int| occurs_at(text, pat, i)
}

/// The first position at or after `i` where `pat` occurs in `text`.
pub open spec fn find_from(text: Seq<u8>, pat: Seq<u8>, i: int) -> Option<int>
    decreases text.len() - i + 1,
{
    if i < 0 || i + pat.len() > text.len() {
        None
    } else if occurs_at(text, pat, i) {
        Some(i)
    } else {
        find_from(text, pat, i + 1)
    }
}

/// The position of the first occurrence of `pat` in `text`.
pub open spec fn find_first(text: Seq<u8>, pat: Seq<u8>) -> Option<int> {
    find_from(text, pat, 0)
}

/// The last position at or before `i` where `pat` occurs in `text`.
pub open spec fn rfind_from(text: Seq<u8>, pat: Seq<u8>, i: int) -> Option<int>
    decreases i + 1,
{
    if i < 0 {
        None
    } else if occurs_at(text, pat, i) {
        Some(i)
    } else {
        rfind_from(text, pat, i - 1)
    }
}

/// The position of the last occurrence of `pat` in `text`.
pub open spec fn find_last(text: Seq<u8>, pat: Seq<u8>) -> Option<int> {
    rfind_from(text, pat, text.len() - pat.len())
}

/// What `find_from` returns: the least occurrence at or after `i`, or
/// nothing exactly when there is none.
pub proof fn lemma_find_from(text: Seq<u8>, pat: Seq<u8>, i: int)
    requires
        0 <= i,
    ensures
        match find_from(text, pat, i) {
            Some(j) => i <= j && occurs_at(text, pat, j) && forall|k: int|
                i <= k < j ==> !occurs_at(text, pat, k),
            None => forall|k: int| k >= i ==> !occurs_at(text, pat, k),
        },
    decreases text.len() - i + 1,
{
    if i + pat.len() > text.len() {
        assert forall|k: int| k >= i implies !occurs_at(text, pat, k) by {}
    } else if occurs_at(text, pat, i) {
    } else {
        lemma_find_from(text, pat, i + 1);
    }
}

/// What `find_first` returns: the least occurrence, or nothing exactly
/// when `pat` does not occur in `text`.
pub proof fn lemma_find_first(text: Seq<u8>, pat: Seq<u8>)
    ensures
        match find_first(text, pat) {
            Some(j) => occurs_at(text, pat, j) && forall|k: int|
                0 <= k < j ==> !occurs_at(text, pat, k),
            None => !contains_seq(text, pat),
        },
{
    lemma_find_from(text, pat, 0);
    if find_first(text, pat) is None {
        assert forall|k: int| !occurs_at(text, pat, k) by {
            if k >= 0 {
                assert(!occurs_at(text, pat, k));
            }
        }
    }
}

/// What `rfind_from` returns: the greatest occurrence at or before `i`,
/// or nothing exactly when there is none.
pub proof fn lemma_rfind_from(text: Seq<u8>, pat: Seq<u8>, i: int)
    ensures
        match rfind_from(text, pat, i) {
            Some(j) => j <= i && occurs_at(text, pat, j) && forall|k: int|
                j < k <= i ==> !occurs_at(text, pat, k),
            None => forall|k: int| k <= i ==> !occurs_at(text, pat, k),
        },
    decreases i + 1,
{
    if i < 0 {
    } else if occurs_at(text, pat, i) {
    } else {
        lemma_rfind_from(text, pat, i - 1);
    }
}

/// What `find_last` returns: the greatest occurrence, or nothing exactly
/// when `pat` does not occur in `text`.
pub proof fn lemma_find_last(text: Seq<u8>, pat: Seq<u8>)
    ensures
        match find_last(text, pat) {
            Some(j) => occurs_at(text, pat, j) && forall|k: int|
                k > j ==> !occurs_at(text, pat, k),
            None => !contains_seq(text, pat),
        },
{
    lemma_rfind_from(text, pat, text.len() - pat.len());
    assert forall|k: int| k > text.len() - pat.len() implies !occurs_at(text, pat, k) by {}
    if find_last(text, pat) is None {
        assert forall|k: int| !occurs_at(text, pat, k) by {
            if k <= text.len() - pat.len() {
                assert(!occurs_at(text, pat, k));
            }
        }
    }
}

/// A pattern is found exactly when it occurs.
pub proof fn lemma_find_first_absent(text: Seq<u8>, pat: Seq<u8>)
    ensures
        (find_first(text, pat) is None) <==> !contains_seq(text, pat),
{
    lemma_find_first(text, pat);
}

/// Relies on twoway::find_bytes: it returns the index of the first
/// occurrence of `pattern` in `text`, or nothing when there is none; an
/// empty pattern occurs at index zero.
#[verifier::external_body]
pub(crate) fn find_bytes(text: &[u8], pattern: &[u8]) -> (r: Option<usize>)
    ensures
        match r {
            Some(i) => find_first(text@, pattern@) == Some(i as int),
            None => find_first(text@, pattern@) is None,
        },
{
    twoway::find_bytes(text, pattern)
}

/// Relies on twoway::rfind_bytes: it returns the index of the last
/// occurrence of `pattern` in `text`, or nothing when there is none; an
/// empty pattern occurs at the end of `text`.
#[verifier::external_body]
pub(crate) fn rfind_bytes(text: &[u8], pattern: &[u8]) -> (r: Option<usize>)
    ensures
        match r {
            Some(i) => find_last(text@, pattern@) == Some(i as int),
            None => find_last(text@, pattern@) is None,
        },
{
    twoway::rfind_bytes(text, pattern)
}

} // verus!
