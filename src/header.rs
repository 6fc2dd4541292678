//! The header rewriter: finds the i5 index after the last `:` and the first
//! `+` that follows it, and reverse-complements it in place.

use vstd::prelude::*;
use vstd::slice::slice_subrange;
use crate::dna::{reverse_complement, reverse_complement_in_place, lemma_reverse_complement_involutive, complement};
use crate::search::{
    find_byte, rfind_byte, first_index_of, last_index_of, lemma_first_index_of, lemma_last_index_of,
    lemma_first_index_of_unique, lemma_last_index_of_unique,
};

verus! {

pub const AT_SIGN: u8 = 64;
pub const COLON: u8 = 58;
pub const PLUS: u8 = 43;
pub const LINE_FEED: u8 = 10;

/// Whether the header ends with a line feed.
pub open spec fn ends_with_line_feed(h: Seq<u8>) -> bool {
    h.len() > 0 && h.last() == LINE_FEED
}

/// The bounds `(start, end)` of the i5 field of a header: the bytes after the
/// first `+` that follows the last `:`, up to the trailing line feed if there
/// is one. `None` when the buffer does not start with `@`, has no `:`, or has
/// no `+` after its last `:`.
pub open spec fn i5_span(h: Seq<u8>) -> Option<(int, int)> {
    if h.len() == 0 || h[0] != AT_SIGN {
        None
    } else {
        let j = last_index_of(h, COLON);
        if j < 0 {
            None
        } else {
            let k = first_index_of(h.subrange(j + 1, h.len() as int), PLUS);
            if k < 0 {
                None
            } else {
                let end = if ends_with_line_feed(h) {
                    h.len() - 1
                } else {
                    h.len() as int
                };
                Some((j + 1 + k + 1, end))
            }
        }
    }
}

/// The header with its i5 field reverse-complemented; unchanged when it has
/// no i5 field.
pub open spec fn rewrite_i5(h: Seq<u8>) -> Seq<u8> {
    match i5_span(h) {
        Some((s, e)) => h.subrange(0, s) + reverse_complement(h.subrange(s, e)) + h.subrange(
            e,
            h.len() as int,
        ),
        None => h,
    }
}

/// The i5 field, when there is one, lies inside the header.
pub proof fn lemma_i5_span_bounds(h: Seq<u8>)
    ensures
        match i5_span(h) {
            Some((s, e)) => {
                &&& 3 <= s <= e <= h.len()
                &&& h[s - 1] == PLUS
                &&& last_index_of(h, COLON) < s - 1
                &&& (e < h.len() ==> e == h.len() - 1 && h[e] == LINE_FEED)
            },
            None => true,
        },
{
    lemma_last_index_of(h, COLON);
    let j = last_index_of(h, COLON);
    if h.len() > 0 && h[0] == AT_SIGN && j >= 0 {
        let t = h.subrange(j + 1, h.len() as int);
        lemma_first_index_of(t, PLUS);
        let k = first_index_of(t, PLUS);
        if k >= 0 {
            assert(h[j + 1 + k] == t[k]);
            assert(j >= 1);
        }
    }
}

/// Reverse-complements the i5 field of a header line in place. Returns
/// whether the header had an i5 field; the length never changes, and a
/// header without the field is left as it was.
pub fn rewrite_header_i5(header: &mut Vec<u8>) -> (r: bool)
    ensures
        r == i5_span(old(header)@) is Some,
        final(header)@ == rewrite_i5(old(header)@),
        final(header)@.len() == old(header)@.len(),
        !r ==> final(header)@ == old(header)@,
{
    proof {
        lemma_i5_span_bounds(header@);
    }
    let ghost h = header@;
    let len = header.len();
    if len == 0 || header[0] != AT_SIGN {
        return false;
    }
    let has_nl = header[len - 1] == LINE_FEED;
    let j = match rfind_byte(COLON, header.as_slice()) {
        Some(j) => j,
        None => return false,
    };
    let rel_k = match find_byte(PLUS, slice_subrange(header.as_slice(), j + 1, len)) {
        Some(k) => k,
        None => return false,
    };
    let start = j + 1 + rel_k + 1;
    let end = if has_nl {
        len - 1
    } else {
        len
    };
    let whole = header.as_mut_slice();
    let (head, rest) = whole.split_at_mut(start);
    let (i5, tail) = rest.split_at_mut(end - start);
    assert(head@ =~= h.subrange(0, start as int));
    assert(tail@ =~= h.subrange(end as int, len as int));
    assert(i5@ =~= h.subrange(start as int, end as int));
    reverse_complement_in_place(i5);
    assert(header@ =~= rewrite_i5(h));
    true
}


/// Rewriting never changes the length of a header.
pub proof fn law_rewrite_keeps_length(h: Seq<u8>)
    ensures
        rewrite_i5(h).len() == h.len(),
{
    lemma_i5_span_bounds(h);
}

/// A header in which no `:` is followed, anywhere later, by a `+` comes out
/// of the rewriter byte for byte as it went in.
pub proof fn law_passthrough_without_index(h: Seq<u8>)
    requires
        forall|j: int, k: int| 0 <= j < k < h.len() && h[j] == COLON ==> h[k] != PLUS,
    ensures
        i5_span(h) is None,
        rewrite_i5(h) == h,
{
    lemma_i5_span_bounds(h);
    lemma_last_index_of(h, COLON);
}

/// Rewriting a header twice gives it back, unless the header has no
/// trailing line feed and its i5 field begins with one (the first rewrite
/// then moves that line feed to the end, where the second rewrite leaves it
/// out of the field).
pub proof fn law_rewrite_involutive(h: Seq<u8>)
    requires
        !(match i5_span(h) {
            Some((s, e)) => s < e && e == h.len() && h[s] == LINE_FEED,
            None => false,
        }),
    ensures
        rewrite_i5(rewrite_i5(h)) == h,
{
    lemma_i5_span_bounds(h);
    match i5_span(h) {
        Some((s, e)) => {
            let h2 = rewrite_i5(h);
            let n = h.len() as int;
            let f = h.subrange(s, e);
            lemma_last_index_of(h, COLON);
            let j = last_index_of(h, COLON);
            assert(h2.len() == n);
            assert forall|i: int| 0 <= i < s implies h2[i] == h[i] by {}
            assert forall|i: int| e <= i < n implies h2[i] == h[i] by {}
            assert forall|i: int| s <= i < e implies h2[i] == complement(h[s + e - 1 - i]) by {}
            assert forall|k: int| j < k < n implies h2[k] != COLON by {
                if s <= k < e {
                    assert(h[s + e - 1 - k] != COLON);
                }
            }
            lemma_last_index_of_unique(h2, COLON, j);
            let t = h.subrange(j + 1, n);
            let t2 = h2.subrange(j + 1, n);
            lemma_first_index_of(t, PLUS);
            let k = first_index_of(t, PLUS);
            assert(k == s - 1 - (j + 1));
            assert forall|m: int| 0 <= m < k implies t2[m] != PLUS by {
                assert(t2[m] == t[m]);
            }
            assert(t2[k] == h2[s - 1]);
            lemma_first_index_of_unique(t2, PLUS, k);
            if e < n {
                assert(ends_with_line_feed(h2));
            } else if s < e {
                assert(h2[n - 1] == complement(h[s]));
                assert(!ends_with_line_feed(h2));
            }
            assert(i5_span(h2) == Some((s, e)));
            assert(h2.subrange(s, e) =~= reverse_complement(f));
            lemma_reverse_complement_involutive(f);
            assert(rewrite_i5(h2) =~= h);
        },
        None => {},
    }
}

/// One line: no line feed but, possibly, as the last byte.
pub open spec fn is_line(l: Seq<u8>) -> bool {
    forall|i: int| 0 <= i < l.len() - 1 ==> l[i] != LINE_FEED
}

/// A rewritten line is still one line, ends with a line feed exactly when
/// the original did, and rewriting it again gives the original back.
pub proof fn law_rewrite_keeps_line(h: Seq<u8>)
    requires
        is_line(h),
    ensures
        is_line(rewrite_i5(h)),
        ends_with_line_feed(rewrite_i5(h)) == ends_with_line_feed(h),
        rewrite_i5(rewrite_i5(h)) == h,
{
    lemma_i5_span_bounds(h);
    match i5_span(h) {
        Some((s, e)) => {
            let h2 = rewrite_i5(h);
            let n = h.len() as int;
            assert forall|i: int| s <= i < e implies h[i] != LINE_FEED by {
                if !ends_with_line_feed(h) && i == n - 1 {
                } else {
                    assert(i < n - 1);
                }
            }
            assert forall|i: int| 0 <= i < n - 1 implies h2[i] != LINE_FEED by {
                if s <= i < e {
                    assert(h2[i] == complement(h[s + e - 1 - i]));
                }
            }
            if n > 0 {
                if e == n && s < e {
                    assert(h2[n - 1] == complement(h[s]));
                } else {
                    assert(h2[n - 1] == h[n - 1]);
                }
            }
        },
        None => {},
    }
    law_rewrite_involutive(h);
}

} // verus!
