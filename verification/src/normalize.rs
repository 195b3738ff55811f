//! Bytecode normalization: stripping the trailing metadata section.
//!
//! Some compilers append a non-executed metadata region to emitted
//! bytecode. Its start is announced by a fixed marker byte sequence,
//! which differs between compiler versions, so the marker is a
//! parameter everywhere and only a default is provided. Normalization
//! truncates the payload strictly before the last occurrence of the
//! marker, and leaves a payload without the marker unchanged.
//!
//! Known, accepted limitation: if the marker bytes also occur inside
//! genuine executable code, truncating at an occurrence removes real
//! code. The scan deliberately stays this simple; callers that need a
//! smarter heuristic must treat that as a semantic change, not a fix.

use vstd::prelude::*;

use crate::bytes::copy_bytes;
use crate::bytes::take_prefix;

verus! {

/// The marker occurs in `b` starting at position `i`.
pub open spec fn occurs_at(b: Seq<u8>, m: Seq<u8>, i: int) -> bool {
    0 <= i && i + m.len() <= b.len() && b.subrange(i, i + m.len() as int) == m
}

/// The marker occurs somewhere in `b`.
pub open spec fn has_marker(b: Seq<u8>, m: Seq<u8>) -> bool {
    exists|i: int| occurs_at(b, m, i)
}

/// The start of the last occurrence of `m` among the positions below
/// `k`, or `None` when no position below `k` carries one.
pub open spec fn last_occurrence_below(b: Seq<u8>, m: Seq<u8>, k: nat) -> Option<int>
    decreases k,
{
    if k == 0 {
        None
    } else if occurs_at(b, m, k - 1) {
        Some(k - 1)
    } else {
        last_occurrence_below(b, m, (k - 1) as nat)
    }
}

/// The start of the last occurrence of `m` in `b`, if any.
pub open spec fn last_occurrence(b: Seq<u8>, m: Seq<u8>) -> Option<int> {
    last_occurrence_below(b, m, b.len() + 1)
}

/// What normalization returns: everything strictly before the last
/// occurrence of the marker, or the input unchanged without one.
pub open spec fn normalize_spec(b: Seq<u8>, m: Seq<u8>) -> Seq<u8> {
    match last_occurrence(b, m) {
        Some(i) => b.take(i),
        None => b,
    }
}

proof fn lemma_no_occurrence_below(b: Seq<u8>, m: Seq<u8>, k: nat)
    requires
        forall|j: int| j < k ==> !occurs_at(b, m, j),
    ensures
        last_occurrence_below(b, m, k) == None::<int>,
    decreases k,
{
    if k > 0 {
        lemma_no_occurrence_below(b, m, (k - 1) as nat);
    }
}

proof fn lemma_last_occurrence_below_is(b: Seq<u8>, m: Seq<u8>, i: int, k: nat)
    requires
        0 <= i < k,
        occurs_at(b, m, i),
        forall|j: int| i < j < k ==> !occurs_at(b, m, j),
    ensures
        last_occurrence_below(b, m, k) == Some(i),
    decreases k,
{
    if k - 1 == i {
    } else {
        lemma_last_occurrence_below_is(b, m, i, (k - 1) as nat);
    }
}

proof fn lemma_occurrence_in_range(b: Seq<u8>, m: Seq<u8>, i: int)
    requires
        occurs_at(b, m, i),
    ensures
        i <= b.len(),
{
}

proof fn lemma_last_occurrence_below_occurs(b: Seq<u8>, m: Seq<u8>, k: nat, i: int)
    requires
        last_occurrence_below(b, m, k) == Some(i),
    ensures
        occurs_at(b, m, i),
    decreases k,
{
    if k > 0 && !occurs_at(b, m, k - 1) {
        lemma_last_occurrence_below_occurs(b, m, (k - 1) as nat, i);
    }
}

/// A position reported by `last_occurrence` carries an occurrence.
pub proof fn lemma_last_occurrence_occurs(b: Seq<u8>, m: Seq<u8>, i: int)
    requires
        last_occurrence(b, m) == Some(i),
    ensures
        occurs_at(b, m, i),
        0 <= i <= b.len(),
{
    lemma_last_occurrence_below_occurs(b, m, b.len() + 1, i);
}

/// Characterizes `last_occurrence`: it is `Some(i)` exactly when the
/// marker occurs at `i` and at no later position.
pub proof fn lemma_last_occurrence_some(b: Seq<u8>, m: Seq<u8>, i: int)
    requires
        occurs_at(b, m, i),
        forall|j: int| j > i ==> !occurs_at(b, m, j),
    ensures
        last_occurrence(b, m) == Some(i),
{
    lemma_last_occurrence_below_is(b, m, i, b.len() + 1);
}

/// Characterizes `last_occurrence`: it is `None` exactly when the
/// marker occurs nowhere in `b`.
pub proof fn lemma_last_occurrence_none(b: Seq<u8>, m: Seq<u8>)
    requires
        !has_marker(b, m),
    ensures
        last_occurrence(b, m) == None::<int>,
{
    lemma_no_occurrence_below(b, m, b.len() + 1);
}

/// A payload without the marker is left unchanged by normalization.
pub proof fn lemma_normalize_no_marker(b: Seq<u8>, m: Seq<u8>)
    requires
        !has_marker(b, m),
    ensures
        normalize_spec(b, m) == b,
{
    lemma_last_occurrence_none(b, m);
}

/// An empty marker occurs at the very end of the payload, so
/// normalization with it truncates nothing.
proof fn lemma_normalize_empty_marker(b: Seq<u8>)
    ensures
        normalize_spec(b, Seq::<u8>::empty()) == b,
{
    let m = Seq::<u8>::empty();
    let n = b.len() as int;
    assert(b.subrange(n, n) =~= m);
    assert(occurs_at(b, m, n));
    assert(forall|j: int| j > n ==> !occurs_at(b, m, j));
    lemma_last_occurrence_some(b, m, n);
    assert(b.take(n) =~= b);
}

/// An occurrence wholly inside the kept prefix of `b` is an
/// occurrence in the truncation, and the other way round.
proof fn lemma_occurrence_in_prefix(b: Seq<u8>, m: Seq<u8>, cut: int, i: int)
    requires
        0 <= cut <= b.len(),
        0 <= i,
        i + m.len() <= cut,
    ensures
        occurs_at(b.take(cut), m, i) <==> occurs_at(b, m, i),
{
    assert(b.take(cut).subrange(i, i + m.len() as int) =~= b.subrange(i, i + m.len() as int));
}

/// Normalizing twice equals normalizing once, provided any two
/// occurrences of the marker in the payload overlap. (With two
/// disjoint occurrences the first pass keeps the earlier one, which
/// the second pass then removes, so the general claim fails.)
pub proof fn lemma_normalize_idempotent(b: Seq<u8>, m: Seq<u8>)
    requires
        forall|i: int, j: int| occurs_at(b, m, i) && occurs_at(b, m, j) && i < j ==> j < i + m.len(),
    ensures
        normalize_spec(normalize_spec(b, m), m) == normalize_spec(b, m),
{
    if m.len() == 0 {
        assert(m =~= Seq::<u8>::empty());
        lemma_normalize_empty_marker(b);
        lemma_normalize_empty_marker(normalize_spec(b, m));
    } else if has_marker(b, m) {
        let w = choose|w: int| occurs_at(b, m, w);
        let last = last_of(b, m, w);
        let r = b.take(last);
        assert forall|i: int| !occurs_at(r, m, i) by {
            if occurs_at(r, m, i) {
                lemma_occurrence_in_prefix(b, m, last, i);
                assert(occurs_at(b, m, i));
                assert(occurs_at(b, m, last));
                assert(i + m.len() <= last);
                assert(i < last);
            }
        }
        assert(normalize_spec(b, m) == r);
        lemma_normalize_no_marker(r, m);
    } else {
        lemma_normalize_no_marker(b, m);
        lemma_normalize_no_marker(normalize_spec(b, m), m);
    }
}

/// From one occurrence, produce the position of the last occurrence,
/// together with its characterization.
proof fn last_of(b: Seq<u8>, m: Seq<u8>, w: int) -> (last: int)
    requires
        occurs_at(b, m, w),
    ensures
        occurs_at(b, m, last),
        forall|j: int| j > last ==> !occurs_at(b, m, j),
        last_occurrence(b, m) == Some(last),
        0 <= last <= b.len(),
    decreases b.len() + 1 - w,
{
    lemma_occurrence_in_range(b, m, w);
    if exists|j: int| j > w && occurs_at(b, m, j) {
        let j = choose|j: int| j > w && occurs_at(b, m, j);
        last_of(b, m, j)
    } else {
        lemma_last_occurrence_some(b, m, w);
        w
    }
}

/// Splicing the marker onto a marker-free prefix and truncating gives
/// the prefix back, provided the payload carries no occurrence after
/// the spliced one. (An occurrence later in the appended tail would
/// itself be the cut point, so the general claim fails there.)
pub proof fn lemma_normalize_truncates(x: Seq<u8>, m: Seq<u8>, y: Seq<u8>)
    requires
        forall|i: int| !occurs_at(x, m, i),
        forall|j: int| j > x.len() ==> !occurs_at(x + m + y, m, j),
    ensures
        normalize_spec(x + m + y, m) == x,
{
    let b = x + m + y;
    let n = x.len() as int;
    assert(b.subrange(n, n + m.len() as int) =~= m);
    assert(occurs_at(b, m, n));
    lemma_last_occurrence_some(b, m, n);
    assert(b.take(n) =~= x);
}

/// The marker occurs in `b` at position `i`.
fn match_at(b: &Vec<u8>, m: &Vec<u8>, i: usize) -> (r: bool)
    requires
        i + m@.len() <= b@.len(),
    ensures
        r == occurs_at(b@, m@, i as int),
{
    let n = b.len();
    let ml = m.len();
    let mut k: usize = 0;
    while k < ml
        invariant
            0 <= k <= ml,
            ml == m@.len(),
            n == b@.len(),
            i + ml <= n,
            forall|j: int| 0 <= j < k ==> b@[i + j] == m@[j],
        decreases ml - k,
    {
        if b[i + k] != m[k] {
            proof {
                assert(b@.subrange(i as int, i + ml) != m@) by {
                    assert(b@.subrange(i as int, i + ml)[k as int] == b@[i + k]);
                }
            }
            return false;
        }
        k += 1;
    }
    proof {
        assert(b@.subrange(i as int, i + ml) =~= m@);
    }
    true
}

/// Truncates `bytecode` strictly before the last occurrence of
/// `marker`; without an occurrence the payload comes back unchanged.
pub fn normalize(bytecode: &Vec<u8>, marker: &Vec<u8>) -> (r: Vec<u8>)
    ensures
        r@ == normalize_spec(bytecode@, marker@),
{
    let n = bytecode.len();
    let ml = marker.len();
    if ml == 0 {
        proof {
            assert(marker@ =~= Seq::<u8>::empty());
            lemma_normalize_empty_marker(bytecode@);
        }
        return copy_bytes(bytecode);
    }
    if ml > n {
        proof {
            assert(forall|i: int| !occurs_at(bytecode@, marker@, i));
            lemma_normalize_no_marker(bytecode@, marker@);
        }
        return copy_bytes(bytecode);
    }
    // Scan candidate start positions from the end; the first hit is
    // the last occurrence.
    let mut k: usize = n - ml + 1;
    while k > 0
        invariant
            0 <= k <= n - ml + 1,
            ml >= 1,
            ml == marker@.len(),
            n == bytecode@.len(),
            forall|j: int| j >= k ==> !occurs_at(bytecode@, marker@, j),
        decreases k,
    {
        let i = k - 1;
        if match_at(bytecode, marker, i) {
            proof {
                lemma_last_occurrence_some(bytecode@, marker@, i as int);
            }
            return take_prefix(bytecode, i);
        }
        k = i;
    }
    proof {
        assert(forall|i: int| !occurs_at(bytecode@, marker@, i));
        lemma_normalize_no_marker(bytecode@, marker@);
    }
    copy_bytes(bytecode)
}

/// The default metadata marker, the ASCII digits `a264`, as emitted
/// at the head of the CBOR metadata section by current compilers.
pub open spec fn default_marker_spec() -> Seq<u8> {
    seq![97u8, 50u8, 54u8, 52u8]
}

/// The default metadata marker as a vector: the ASCII bytes of `a264`.
pub fn default_marker() -> (r: Vec<u8>)
    ensures
        r@ == default_marker_spec(),
{
    let mut v: Vec<u8> = Vec::new();
    v.push(97);
    v.push(50);
    v.push(54);
    v.push(52);
    proof {
        assert(v@ =~= default_marker_spec());
    }
    v
}

/// Strips everything from the last occurrence of the default metadata
/// marker onward; a payload without the marker comes back unchanged.
pub fn remove_metadata(bytecode: Vec<u8>) -> (r: Vec<u8>)
    ensures
        r@ == normalize_spec(bytecode@, default_marker_spec()),
{
    let marker = default_marker();
    normalize(&bytecode, &marker)
}

} // verus!
