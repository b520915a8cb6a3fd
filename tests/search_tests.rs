use zelux::search::{find_all_folded, find_all_matches};

#[test]
fn folded_search_is_exact_bytes() {
    assert_eq!(find_all_folded(b"abcabc", b"bc"), vec![(1, 3), (4, 6)]);
    assert_eq!(find_all_folded(b"ABC", b"abc"), Vec::<(usize, usize)>::new());
    assert_eq!(find_all_folded(b"abc", b""), Vec::<(usize, usize)>::new());
    assert_eq!(find_all_folded(b"ab", b"abc"), Vec::<(usize, usize)>::new());
}

#[test]
fn overlapping_occurrences_are_skipped() {
    assert_eq!(find_all_matches("aaaa", "aa"), vec![(0, 2), (2, 4)]);
    assert_eq!(find_all_matches("aaaaa", "aaa"), vec![(0, 3)]);
}

#[test]
fn mixed_case_pattern_matches() {
    assert_eq!(find_all_matches("xFoOx", "fOO"), vec![(1, 4)]);
    assert_eq!(find_all_matches("", "a"), Vec::<(usize, usize)>::new());
}
