//! DNA base complement and in-place reverse complement.

use vstd::prelude::*;

verus! {

pub const UPPER_A: u8 = 65;
pub const UPPER_C: u8 = 67;
pub const UPPER_G: u8 = 71;
pub const UPPER_T: u8 = 84;
pub const UPPER_N: u8 = 78;
pub const UPPER_Z: u8 = 90;
pub const LOWER_A: u8 = 97;
pub const LOWER_C: u8 = 99;
pub const LOWER_G: u8 = 103;
pub const LOWER_T: u8 = 116;
pub const LOWER_N: u8 = 110;
pub const LOWER_Z: u8 = 122;

/// The bases that have a complement: `A C G T N`, in either case.
pub open spec fn is_base(b: u8) -> bool {
    b == UPPER_A || b == UPPER_C || b == UPPER_G || b == UPPER_T || b == UPPER_N || b == LOWER_A || b == LOWER_C || b
        == LOWER_G || b == LOWER_T || b == LOWER_N
}

/// Complement of one byte: A<->T, C<->G, N<->N with case kept; any other
/// byte is its own complement.
pub open spec fn complement(b: u8) -> u8 {
    if b == UPPER_A {
        UPPER_T
    } else if b == UPPER_C {
        UPPER_G
    } else if b == UPPER_G {
        UPPER_C
    } else if b == UPPER_T {
        UPPER_A
    } else if b == LOWER_A {
        LOWER_T
    } else if b == LOWER_C {
        LOWER_G
    } else if b == LOWER_G {
        LOWER_C
    } else if b == LOWER_T {
        LOWER_A
    } else {
        b
    }
}

/// The reverse complement of a byte sequence.
pub open spec fn reverse_complement(s: Seq<u8>) -> Seq<u8> {
    Seq::new(s.len(), |i: int| complement(s[s.len() - 1 - i]))
}

pub open spec fn is_upper(b: u8) -> bool {
    UPPER_A <= b <= UPPER_Z
}

pub open spec fn is_lower(b: u8) -> bool {
    LOWER_A <= b <= LOWER_Z
}

/// Returns the complement of a DNA base, keeping its case; other bytes are
/// returned unchanged.
pub fn complement_base(b: u8) -> (r: u8)
    ensures
        r == complement(b),
        !is_base(b) ==> r == b,
{
    if b == UPPER_A {
        UPPER_T
    } else if b == UPPER_C {
        UPPER_G
    } else if b == UPPER_G {
        UPPER_C
    } else if b == UPPER_T {
        UPPER_A
    } else if b == LOWER_A {
        LOWER_T
    } else if b == LOWER_C {
        LOWER_G
    } else if b == LOWER_G {
        LOWER_C
    } else if b == LOWER_T {
        LOWER_A
    } else {
        b
    }
}

/// Reverse-complements `buf` in place, walking inward from both ends.
pub fn reverse_complement_in_place(buf: &mut [u8])
    ensures
        final(buf)@ == reverse_complement(old(buf)@),
        final(buf)@.len() == old(buf)@.len(),
{
    let ghost orig = buf@;
    let n = buf.len();
    let mut i: usize = 0;
    let mut j: usize = n;
    while i < j
        invariant
            n == orig.len(),
            buf@.len() == n,
            i + j == n,
            i <= j + 1,
            forall|k: int| 0 <= k < i ==> buf@[k] == complement(orig[n - 1 - k]),
            forall|k: int| j <= k < n ==> buf@[k] == complement(orig[n - 1 - k]),
            forall|k: int| i <= k < j ==> buf@[k] == orig[k],
            j <= n,
        decreases n - i,
    {
        j -= 1;
        let a = complement_base(buf[i]);
        let b = complement_base(buf[j]);
        buf[i] = b;
        buf[j] = a;
        i += 1;
    }
    assert(buf@ =~= reverse_complement(orig));
}

/// Reverse-complementing twice gives the sequence back.
pub proof fn lemma_reverse_complement_involutive(s: Seq<u8>)
    ensures
        reverse_complement(reverse_complement(s)) == s,
{
    assert(reverse_complement(reverse_complement(s)) =~= s);
}

/// Complementing keeps the case of each letter: an upper-case byte stays
/// upper case and a lower-case one stays lower case, in both directions.
pub proof fn law_complement_keeps_case(b: u8)
    ensures
        is_upper(complement(b)) <==> is_upper(b),
        is_lower(complement(b)) <==> is_lower(b),
{
}

/// A byte that is not a base keeps its value under reverse complement and
/// only moves to the mirrored position.
pub proof fn law_non_base_only_moves(s: Seq<u8>, i: int)
    requires
        0 <= i < s.len(),
        !is_base(s[s.len() - 1 - i]),
    ensures
        reverse_complement(s)[i] == s[s.len() - 1 - i],
{
}

} // verus!
