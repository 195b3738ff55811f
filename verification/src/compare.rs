//! Provenance comparison: normalize both payloads and classify.
//!
//! Both the on-chain and the freshly built initialization bytecode
//! pass through the normalizer, and the two canonical forms are then
//! compared byte for byte, except that the case of the hex digits
//! `A`–`F` is ignored. Exact equality is the entire value of the
//! check: there is no fuzzy or partial scoring.

use vstd::prelude::*;

use crate::normalize::last_occurrence;
use crate::normalize::normalize;
use crate::normalize::normalize_spec;

verus! {

/// The terminal classification of a verification run.
#[derive(PartialEq, Eq, Structural, Clone, Copy, Debug)]
pub enum VerificationResult {
    /// The two normalized payloads agree byte for byte.
    Match,
    /// The two normalized payloads differ.
    Mismatch,
    /// No recorded creation in the trace resulted in the target
    /// address.
    NotFound,
    /// Several recorded creations resulted in the target address.
    Ambiguous,
}

/// An upper-case hex digit folded to lower case; every other byte is
/// left alone.
pub open spec fn fold_hex_byte(c: u8) -> u8 {
    if 65 <= c && c <= 70 {
        (c + 32) as u8
    } else {
        c
    }
}

/// The payload with every upper-case hex digit folded to lower case.
pub open spec fn fold_hex(s: Seq<u8>) -> Seq<u8> {
    s.map_values(|c: u8| fold_hex_byte(c))
}

/// What the comparator returns: `Match` exactly when the normalized
/// payloads agree up to hex-digit case, `Mismatch` otherwise.
pub open spec fn compare_spec(a: Seq<u8>, b: Seq<u8>, m: Seq<u8>) -> VerificationResult {
    if fold_hex(normalize_spec(a, m)) == fold_hex(normalize_spec(b, m)) {
        VerificationResult::Match
    } else {
        VerificationResult::Mismatch
    }
}

/// The payload with every upper-case hex digit folded to lower case.
pub fn fold_hex_bytes(b: &Vec<u8>) -> (r: Vec<u8>)
    ensures
        r@ == fold_hex(b@),
{
    let n = b.len();
    let mut r: Vec<u8> = Vec::new();
    let mut i: usize = 0;
    while i < n
        invariant
            0 <= i <= n,
            n == b@.len(),
            r@.len() == i,
            forall|j: int| 0 <= j < i ==> r@[j] == fold_hex_byte(b@[j]),
        decreases n - i,
    {
        let c = b[i];
        if 65 <= c && c <= 70 {
            r.push(c + 32);
        } else {
            r.push(c);
        }
        i += 1;
    }
    proof {
        assert(r@ =~= fold_hex(b@));
    }
    r
}

/// Normalizes both payloads with the given metadata marker and
/// classifies them: `Match` exactly when the canonical forms agree up
/// to hex-digit case, `Mismatch` otherwise.
pub fn compare(on_chain: &Vec<u8>, built: &Vec<u8>, marker: &Vec<u8>) -> (r: VerificationResult)
    ensures
        r == compare_spec(on_chain@, built@, marker@),
        r is Match || r is Mismatch,
{
    let a = normalize(on_chain, marker);
    let b = normalize(built, marker);
    let fa = fold_hex_bytes(&a);
    let fb = fold_hex_bytes(&b);
    if crate::bytes::bytes_eq(&fa, &fb) {
        VerificationResult::Match
    } else {
        VerificationResult::Mismatch
    }
}

/// Comparison does not depend on the order of its two payloads.
pub proof fn lemma_compare_symmetric(a: Seq<u8>, b: Seq<u8>, m: Seq<u8>)
    ensures
        compare_spec(a, b, m) == compare_spec(b, a, m),
{
}

/// Folding commutes with truncation.
proof fn lemma_fold_take(s: Seq<u8>, k: int)
    requires
        0 <= k <= s.len(),
    ensures
        fold_hex(s.take(k)) == fold_hex(s).take(k),
{
    assert(fold_hex(s.take(k)) =~= fold_hex(s).take(k));
}

/// Hex-digit case variants of one payload compare as `Match`,
/// provided the case difference leaves the last marker occurrence in
/// place. (A marker hidden or revealed by a case change moves the
/// truncation point, and the normalized lengths then differ.)
pub proof fn lemma_compare_case_variants(a: Seq<u8>, b: Seq<u8>, m: Seq<u8>)
    requires
        fold_hex(a) == fold_hex(b),
        last_occurrence(a, m) == last_occurrence(b, m),
    ensures
        compare_spec(a, b, m) == VerificationResult::Match,
{
    assert(a.len() == fold_hex(a).len());
    assert(b.len() == fold_hex(b).len());
    match last_occurrence(a, m) {
        Some(i) => {
            crate::normalize::lemma_last_occurrence_occurs(a, m, i);
            crate::normalize::lemma_last_occurrence_occurs(b, m, i);
            assert(normalize_spec(a, m) == a.take(i));
            assert(normalize_spec(b, m) == b.take(i));
            lemma_fold_take(a, i);
            lemma_fold_take(b, i);
        },
        None => {},
    }
}

} // verus!
