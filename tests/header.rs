use fastq_fix_i5::dna::{complement_base, reverse_complement_in_place};
use fastq_fix_i5::header::rewrite_header_i5;
use fastq_fix_i5::search::{find_byte, rfind_byte};

fn rewritten(input: &[u8]) -> (Vec<u8>, bool) {
    let mut header = input.to_vec();
    let done = rewrite_header_i5(&mut header);
    (header, done)
}

fn check(input: &[u8], expected: &[u8]) {
    let (out, _) = rewritten(input);
    assert_eq!(out.as_slice(), expected, "input = {:?}", String::from_utf8_lossy(input));
}

#[test]
fn rewrite_case_actacttgag() {
    check(
        b"@VH00821:6:AACCCKLM5:1:1101:18231:1000 1:N:0:TCTTGAGGTT+ACTACTTGAG\n",
        b"@VH00821:6:AACCCKLM5:1:1101:18231:1000 1:N:0:TCTTGAGGTT+CTCAAGTAGT\n",
    );
}

#[test]
fn rewrite_case_acgt() {
    check(b"@r1 1:N:0:AAAA+ACGT\n", b"@r1 1:N:0:AAAA+ACGT\n");
}

#[test]
fn rewrite_case_acgt_lowercase() {
    check(b"@r2 1:N:0:CCCC+acgt\n", b"@r2 1:N:0:CCCC+acgt\n");
}

#[test]
fn rewrite_case_nnnn() {
    check(b"@r3 1:N:0:GGGG+NNNN\n", b"@r3 1:N:0:GGGG+NNNN\n");
}

#[test]
fn rewrite_case_actg_mixedcase() {
    check(b"@r4 1:N:0:TTTT+AcTg\n", b"@r4 1:N:0:TTTT+cAgT\n");
}

#[test]
fn rewrite_case_extra_colons() {
    check(
        b"@inst:run:flow:lane:tile:x:y 1:N:0:AAAA+TTTT\n",
        b"@inst:run:flow:lane:tile:x:y 1:N:0:AAAA+AAAA\n",
    );
}

#[test]
fn rewrite_case_no_plus() {
    check(b"@r5 1:N:0:AAAA\n", b"@r5 1:N:0:AAAA\n");
}

#[test]
fn rewrite_case_no_colon() {
    check(b"@r6 no_index_here\n", b"@r6 no_index_here\n");
}

#[test]
fn rewrite_case_no_newline() {
    check(b"@r7 1:N:0:CCCC+AGTC", b"@r7 1:N:0:CCCC+GACT");
}

#[test]
fn rewrite_case_empty_header() {
    check(b"@\n", b"@\n");
}

#[test]
fn rewrite_case_empty_i5() {
    check(b"@pyt1 1:N:0:AAAA+\n", b"@pyt1 1:N:0:AAAA+\n");
}

#[test]
fn rewrite_case_single_a() {
    check(b"@pyt2 1:N:0:AAAA+A\n", b"@pyt2 1:N:0:AAAA+T\n");
}

#[test]
fn rewrite_case_single_n() {
    check(b"@pyt3 1:N:0:AAAA+N\n", b"@pyt3 1:N:0:AAAA+N\n");
}

#[test]
fn rewrite_case_mixed_case_short() {
    check(b"@pyt4 1:N:0:AAAA+AaCg\n", b"@pyt4 1:N:0:AAAA+cGtT\n");
}

#[test]
fn rewrite_case_acgtn() {
    check(b"@pyt5 1:N:0:AAAA+AcgTN\n", b"@pyt5 1:N:0:AAAA+NAcgT\n");
}

#[test]
fn rewrite_case_all_as() {
    check(b"@pyt6 1:N:0:AAAA+AAAA\n", b"@pyt6 1:N:0:AAAA+TTTT\n");
}

#[test]
fn rewrite_case_all_cs() {
    check(b"@pyt7 1:N:0:AAAA+CCCC\n", b"@pyt7 1:N:0:AAAA+GGGG\n");
}

#[test]
fn rewrite_case_at_repeat() {
    check(b"@pyt8 1:N:0:AAAA+ATATAT\n", b"@pyt8 1:N:0:AAAA+ATATAT\n");
}

#[test]
fn rewrite_case_cg_repeat() {
    check(b"@pyt9 1:N:0:AAAA+CGCGCG\n", b"@pyt9 1:N:0:AAAA+CGCGCG\n");
}

#[test]
fn rewrite_case_ns_flanking() {
    check(b"@pyt10 1:N:0:AAAA+NNACGTNN\n", b"@pyt10 1:N:0:AAAA+NNACGTNN\n");
}

#[test]
fn rewrite_case_general_atcacg() {
    check(b"@pyt11 1:N:0:AAAA+ATCACG\n", b"@pyt11 1:N:0:AAAA+CGTGAT\n");
}

#[test]
fn rewrite_case_general_ttaggc() {
    check(b"@pyt12 1:N:0:AAAA+TTAGGC\n", b"@pyt12 1:N:0:AAAA+GCCTAA\n");
}

#[test]
fn rewrite_reports_whether_it_matched() {
    assert!(rewritten(b"@r1 1:N:0:AAAA+ACGT\n").1);
    assert!(rewritten(b"@pyt1 1:N:0:AAAA+\n").1);
    assert!(!rewritten(b"@r5 1:N:0:AAAA\n").1);
    assert!(!rewritten(b"@r6 no_index_here\n").1);
    assert!(!rewritten(b"r1 1:N:0:AAAA+ACGT\n").1);
    assert!(!rewritten(b"").1);
}

#[test]
fn rewrite_needs_leading_at_sign() {
    check(b"r1 1:N:0:AAAA+ACGT\n", b"r1 1:N:0:AAAA+ACGT\n");
    check(b"", b"");
}

#[test]
fn rewrite_twice_restores_header() {
    let original = b"@r1 1:N:0:AAAA+ACTACTTGAG\n";
    let (once, _) = rewritten(original);
    assert_eq!(once.as_slice(), b"@r1 1:N:0:AAAA+CTCAAGTAGT\n");
    let (twice, _) = rewritten(&once);
    assert_eq!(twice.as_slice(), original);
}

#[test]
fn rewrite_keeps_length() {
    for input in [
        &b"@r1 1:N:0:AAAA+ACTACTTGAG\n"[..],
        &b"@r7 1:N:0:CCCC+AGTC"[..],
        &b"@x:+\n"[..],
        &b"@r5 1:N:0:AAAA\n"[..],
    ] {
        assert_eq!(rewritten(input).0.len(), input.len());
    }
}

#[test]
fn rewrite_missing_plus_passes_through() {
    check(b"@r1 1:N:0:AAAAACGT\n", b"@r1 1:N:0:AAAAACGT\n");
    // a '+' before the last ':' does not count
    check(b"@r1 1:N+0:AAAAACGT\n", b"@r1 1:N+0:AAAAACGT\n");
}

#[test]
fn rewrite_unknown_bytes_only_move() {
    check(b"@r 1:N:0:AA+AxG-\n", b"@r 1:N:0:AA+-CxT\n");
}

#[test]
fn rewrite_only_after_first_plus() {
    check(b"@r 1:N:0:AA+CC+GA\n", b"@r 1:N:0:AA+TC+GG\n");
}

#[test]
fn complement_each_base() {
    let pairs: [(u8, u8); 10] = [
        (b'A', b'T'),
        (b'C', b'G'),
        (b'G', b'C'),
        (b'T', b'A'),
        (b'N', b'N'),
        (b'a', b't'),
        (b'c', b'g'),
        (b'g', b'c'),
        (b't', b'a'),
        (b'n', b'n'),
    ];
    for (b, c) in pairs {
        assert_eq!(complement_base(b), c);
    }
}

#[test]
fn complement_leaves_other_bytes() {
    for b in [b'X', b'u', b'U', b'-', b'\n', b'+', b':', 0u8, 255u8] {
        assert_eq!(complement_base(b), b);
    }
}

#[test]
fn complement_keeps_case() {
    let mut field = b"AcTg".to_vec();
    reverse_complement_in_place(&mut field);
    assert_eq!(field.as_slice(), b"cAgT");
}

#[test]
fn reverse_complement_odd_and_empty() {
    let mut odd = b"ACG".to_vec();
    reverse_complement_in_place(&mut odd);
    assert_eq!(odd.as_slice(), b"CGT");
    let mut empty: Vec<u8> = Vec::new();
    reverse_complement_in_place(&mut empty);
    assert!(empty.is_empty());
}

#[test]
fn byte_search_first_and_last() {
    let s = b"a:b:c+d+";
    assert_eq!(find_byte(b':', s), Some(1));
    assert_eq!(rfind_byte(b':', s), Some(3));
    assert_eq!(find_byte(b'+', s), Some(5));
    assert_eq!(rfind_byte(b'+', s), Some(7));
    assert_eq!(find_byte(b'x', s), None);
    assert_eq!(rfind_byte(b'x', b""), None);
}
