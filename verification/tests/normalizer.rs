use provenance::compare::{compare, VerificationResult};
use provenance::hexdata::{check_bytecode, strip_hex_prefix};
use provenance::normalize::{default_marker, normalize, remove_metadata};

fn v(s: &[u8]) -> Vec<u8> {
    s.to_vec()
}

#[test]
fn default_marker_is_a264() {
    assert_eq!(default_marker(), v(b"a264"));
}

#[test]
fn strips_trailing_metadata() {
    let out = remove_metadata(v(b"60806040aabba264deadbeef"));
    assert_eq!(out, v(b"60806040aabb"));
}

#[test]
fn no_marker_leaves_input_unchanged() {
    let out = remove_metadata(v(b"60806040aabbccdd"));
    assert_eq!(out, v(b"60806040aabbccdd"));
}

#[test]
fn empty_input_unchanged() {
    let out = remove_metadata(v(b""));
    assert_eq!(out, v(b""));
}

#[test]
fn marker_at_start_truncates_all() {
    let out = remove_metadata(v(b"a264deadbeef"));
    assert_eq!(out, v(b""));
}

#[test]
fn truncates_at_last_occurrence() {
    // Two disjoint occurrences: the cut is before the last one, so
    // the earlier occurrence survives the first pass.
    let out = remove_metadata(v(b"a26400a264ff"));
    assert_eq!(out, v(b"a26400"));
}

#[test]
fn idempotent_on_single_occurrence() {
    let once = remove_metadata(v(b"6080a264ffff"));
    let twice = remove_metadata(once.clone());
    assert_eq!(once, twice);
}

#[test]
fn idempotent_without_marker() {
    let once = remove_metadata(v(b"60806040"));
    let twice = remove_metadata(once.clone());
    assert_eq!(once, twice);
}

#[test]
fn custom_marker_is_honored() {
    let out = normalize(&v(b"001122fe99fe77"), &v(b"fe"));
    assert_eq!(out, v(b"001122fe99"));
}

#[test]
fn marker_case_sensitive_scan() {
    // The marker scan is exact: an upper-case variant is not a marker.
    let out = remove_metadata(v(b"6080A264ffff"));
    assert_eq!(out, v(b"6080A264ffff"));
}

#[test]
fn empty_marker_truncates_nothing() {
    let out = normalize(&v(b"608060"), &v(b""));
    assert_eq!(out, v(b"608060"));
}

#[test]
fn marker_longer_than_payload_finds_nothing() {
    let out = normalize(&v(b"a2"), &v(b"a264"));
    assert_eq!(out, v(b"a2"));
}

#[test]
fn hex_check_accepts_even_digits() {
    assert!(check_bytecode(&v(b"60806040aAbBfF09")));
    assert!(check_bytecode(&v(b"")));
}

#[test]
fn hex_check_rejects_odd_length() {
    assert!(!check_bytecode(&v(b"608")));
}

#[test]
fn hex_check_rejects_non_hex() {
    assert!(!check_bytecode(&v(b"0x60")));
    assert!(!check_bytecode(&v(b"60zz")));
}

#[test]
fn prefix_stripping() {
    assert_eq!(strip_hex_prefix(&v(b"0x60ab")), v(b"60ab"));
    assert_eq!(strip_hex_prefix(&v(b"0X60ab")), v(b"60ab"));
    assert_eq!(strip_hex_prefix(&v(b"60ab")), v(b"60ab"));
    assert_eq!(strip_hex_prefix(&v(b"0x")), v(b""));
}

#[test]
fn compare_ignores_hex_case() {
    let m = default_marker();
    let r = compare(&v(b"60AB0C"), &v(b"60ab0c"), &m);
    assert_eq!(r, VerificationResult::Match);
}

#[test]
fn compare_is_symmetric_concrete() {
    let m = default_marker();
    let a = v(b"6080a264ff");
    let b = v(b"6081a264ee");
    assert_eq!(compare(&a, &b, &m), compare(&b, &a, &m));
    let c = v(b"6080a264ee");
    assert_eq!(compare(&a, &c, &m), VerificationResult::Match);
    assert_eq!(compare(&c, &a, &m), VerificationResult::Match);
}

#[test]
fn compare_requires_equal_length() {
    let m = default_marker();
    let r = compare(&v(b"6080"), &v(b"608000"), &m);
    assert_eq!(r, VerificationResult::Mismatch);
}
