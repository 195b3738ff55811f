//! Raw bytecode payloads: hex validity and prefix handling.
//!
//! A raw bytecode value is carried as the ASCII bytes of its hex
//! encoding. A payload is well formed when every byte is a hex digit
//! and the length is even (each encoded byte takes two digits); a
//! payload that fails this check cannot be meaningfully normalized or
//! compared and is reported as malformed by the pipeline.

use vstd::prelude::*;

verus! {

/// An ASCII byte that is a hexadecimal digit: `0-9`, `a-f`, or `A-F`.
pub open spec fn is_hex_digit(c: u8) -> bool {
    (48 <= c && c <= 57) || (97 <= c && c <= 102) || (65 <= c && c <= 70)
}

/// A well-formed hex payload: only hex digits, and an even number of
/// them, so that the text encodes a whole number of bytes.
pub open spec fn valid_hex(s: Seq<u8>) -> bool {
    s.len() % 2 == 0 && (forall|i: int| 0 <= i < s.len() ==> is_hex_digit(s[i]))
}

/// Decides whether a raw payload is well-formed hex.
pub fn check_bytecode(b: &Vec<u8>) -> (r: bool)
    ensures
        r == valid_hex(b@),
{
    if b.len() % 2 != 0 {
        return false;
    }
    let n = b.len();
    let mut i: usize = 0;
    while i < n
        invariant
            0 <= i <= n,
            n == b@.len(),
            n % 2 == 0,
            forall|j: int| 0 <= j < i ==> is_hex_digit(b@[j]),
        decreases n - i,
    {
        let c = b[i];
        if !((48 <= c && c <= 57) || (97 <= c && c <= 102) || (65 <= c && c <= 70)) {
            return false;
        }
        i += 1;
    }
    true
}

/// What `strip_hex_prefix` returns: the payload without a leading
/// `0x` or `0X`, or the payload unchanged when no such prefix is there.
pub open spec fn strip_prefix_spec(s: Seq<u8>) -> Seq<u8> {
    if s.len() >= 2 && s[0] == 48 && (s[1] == 120 || s[1] == 88) {
        s.skip(2)
    } else {
        s
    }
}

/// Removes a leading `0x` or `0X` from a hex payload, if present.
pub fn strip_hex_prefix(b: &Vec<u8>) -> (r: Vec<u8>)
    ensures
        r@ == strip_prefix_spec(b@),
{
    let n = b.len();
    let has_prefix = n >= 2 && b[0] == 48 && (b[1] == 120 || b[1] == 88);
    let start: usize = if has_prefix { 2 } else { 0 };
    let mut r: Vec<u8> = Vec::new();
    let mut i: usize = start;
    while i < n
        invariant
            start <= i <= n,
            n == b@.len(),
            r@ == b@.subrange(start as int, i as int),
        decreases n - i,
    {
        let c = b[i];
        r.push(c);
        proof {
            assert(r@ =~= b@.subrange(start as int, i + 1));
        }
        i += 1;
    }
    proof {
        if has_prefix {
            assert(b@.subrange(2, n as int) =~= b@.skip(2));
        } else {
            assert(b@.subrange(0, n as int) =~= b@);
        }
    }
    r
}

} // verus!
