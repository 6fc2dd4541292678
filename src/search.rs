//! Byte search: where a byte first or last occurs in a slice.

use vstd::prelude::*;

verus! {

/// Index of the first occurrence of `b` in `s`, or -1 when there is none.
pub open spec fn first_index_of(s: Seq<u8>, b: u8) -> int
    decreases s.len(),
{
    if s.len() == 0 {
        -1
    } else if s[0] == b {
        0
    } else {
        let r = first_index_of(s.drop_first(), b);
        if r < 0 {
            -1
        } else {
            r + 1
        }
    }
}

/// Index of the last occurrence of `b` in `s`, or -1 when there is none.
pub open spec fn last_index_of(s: Seq<u8>, b: u8) -> int
    decreases s.len(),
{
    if s.len() == 0 {
        -1
    } else if s.last() == b {
        s.len() - 1
    } else {
        last_index_of(s.drop_last(), b)
    }
}

/// `first_index_of` is the position of a `b` with no `b` before it.
pub proof fn lemma_first_index_of(s: Seq<u8>, b: u8)
    ensures
        -1 <= first_index_of(s, b) < s.len(),
        first_index_of(s, b) >= 0 ==> s[first_index_of(s, b)] == b,
        forall|k: int|
            0 <= k < s.len() && (first_index_of(s, b) < 0 || k < first_index_of(s, b)) ==> s[k]
                != b,
    decreases s.len(),
{
    if s.len() > 0 && s[0] != b {
        lemma_first_index_of(s.drop_first(), b);
        assert forall|k: int|
            0 <= k < s.len() && (first_index_of(s, b) < 0 || k < first_index_of(s, b)) implies s[k]
            != b by {
            if k > 0 {
                assert(s[k] == s.drop_first()[k - 1]);
            }
        }
    }
}

/// `last_index_of` is the position of a `b` with no `b` after it.
pub proof fn lemma_last_index_of(s: Seq<u8>, b: u8)
    ensures
        -1 <= last_index_of(s, b) < s.len(),
        last_index_of(s, b) >= 0 ==> s[last_index_of(s, b)] == b,
        forall|k: int| last_index_of(s, b) < k < s.len() ==> s[k] != b,
    decreases s.len(),
{
    if s.len() > 0 && s.last() != b {
        lemma_last_index_of(s.drop_last(), b);
        assert forall|k: int| last_index_of(s, b) < k < s.len() implies s[k] != b by {
            if k < s.len() - 1 {
                assert(s[k] == s.drop_last()[k]);
            }
        }
    }
}

/// A `b` with no `b` before it is the first one.
pub proof fn lemma_first_index_of_unique(s: Seq<u8>, b: u8, i: int)
    requires
        0 <= i < s.len(),
        s[i] == b,
        forall|k: int| 0 <= k < i ==> s[k] != b,
    ensures
        first_index_of(s, b) == i,
{
    lemma_first_index_of(s, b);
}

/// A `b` with no `b` after it is the last one.
pub proof fn lemma_last_index_of_unique(s: Seq<u8>, b: u8, i: int)
    requires
        0 <= i < s.len(),
        s[i] == b,
        forall|k: int| i < k < s.len() ==> s[k] != b,
    ensures
        last_index_of(s, b) == i,
{
    lemma_last_index_of(s, b);
}

/// Relies on memchr::memchr: the index of the first occurrence of the needle,
/// or `None` when it does not occur.
#[verifier::external_body]
fn memchr_first(needle: u8, haystack: &[u8]) -> (r: Option<usize>)
    ensures
        match r {
            Some(i) => i < haystack@.len() && haystack@[i as int] == needle && forall|k: int|
                0 <= k < i ==> haystack@[k] != needle,
            None => forall|k: int| 0 <= k < haystack@.len() ==> haystack@[k] != needle,
        },
{
    memchr::memchr(needle, haystack)
}

/// Relies on memchr::memrchr: the index of the last occurrence of the needle,
/// or `None` when it does not occur.
#[verifier::external_body]
fn memchr_last(needle: u8, haystack: &[u8]) -> (r: Option<usize>)
    ensures
        match r {
            Some(i) => i < haystack@.len() && haystack@[i as int] == needle && forall|k: int|
                i < k < haystack@.len() ==> haystack@[k] != needle,
            None => forall|k: int| 0 <= k < haystack@.len() ==> haystack@[k] != needle,
        },
{
    memchr::memrchr(needle, haystack)
}

/// The first position of `needle` in `haystack`.
pub fn find_byte(needle: u8, haystack: &[u8]) -> (r: Option<usize>)
    ensures
        match r {
            Some(i) => i < haystack@.len() && i == first_index_of(haystack@, needle),
            None => first_index_of(haystack@, needle) == -1,
        },
{
    proof {
        lemma_first_index_of(haystack@, needle);
    }
    memchr_first(needle, haystack)
}

/// The last position of `needle` in `haystack`.
pub fn rfind_byte(needle: u8, haystack: &[u8]) -> (r: Option<usize>)
    ensures
        match r {
            Some(i) => i < haystack@.len() && i == last_index_of(haystack@, needle),
            None => last_index_of(haystack@, needle) == -1,
        },
{
    proof {
        lemma_last_index_of(haystack@, needle);
    }
    memchr_last(needle, haystack)
}

} // verus!
