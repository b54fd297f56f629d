//! Byte-string utilities.
//!
//! Credentials and text fields are opaque byte strings. Equality of secret
//! material goes through `ct_eq`, which inspects every byte pair instead of
//! stopping at the first mismatch.

use vstd::prelude::*;

verus! {

/// Copies a byte string.
pub fn copy_bytes(v: &Vec<u8>) -> (r: Vec<u8>)
    ensures
        r@ == v@,
{
    let mut r: Vec<u8> = Vec::new();
    let n = v.len();
    let mut i: usize = 0;
    while i < n
        invariant
            n == v@.len(),
            0 <= i <= n,
            r@ == v@.subrange(0, i as int),
        decreases n - i,
    {
        r.push(v[i]);
        proof {
            assert(r@ =~= v@.subrange(0, i + 1));
        }
        i += 1;
    }
    proof {
        assert(r@ =~= v@);
    }
    r
}

/// Sameness of two optional byte strings, by contents.
pub open spec fn opt_bytes_eq(a: Option<Vec<u8>>, b: Option<Vec<u8>>) -> bool {
    match (a, b) {
        (Some(x), Some(y)) => x@ == y@,
        (None, None) => true,
        _ => false,
    }
}

/// Copies an optional byte string.
pub fn copy_opt_bytes(v: &Option<Vec<u8>>) -> (r: Option<Vec<u8>>)
    ensures
        opt_bytes_eq(r, *v),
{
    match v {
        Some(b) => Some(copy_bytes(b)),
        None => None,
    }
}

/// Equality of two byte strings of equal length, accumulating the
/// difference over every position rather than returning at the first
/// mismatch.
fn ct_eq_same_len(a: &Vec<u8>, b: &Vec<u8>) -> (r: bool)
    requires
        a@.len() == b@.len(),
    ensures
        r <==> a@ == b@,
{
    let n = a.len();
    let mut diff: u8 = 0;
    let mut i: usize = 0;
    while i < n
        invariant
            n == a@.len(),
            a@.len() == b@.len(),
            0 <= i <= n,
            diff == 0 <==> (forall|k: int| 0 <= k < i ==> a@[k] == b@[k]),
        decreases n - i,
    {
        let x = a[i] ^ b[i];
        proof {
            let ai = a@[i as int];
            let bi = b@[i as int];
            assert((ai ^ bi) == 0 <==> ai == bi) by (bit_vector);
            assert((diff | x) == 0 <==> diff == 0 && x == 0) by (bit_vector);
        }
        diff = diff | x;
        i += 1;
    }
    proof {
        if diff == 0 {
            assert(a@ =~= b@);
        }
    }
    diff == 0
}

/// Constant-time comparison of secret byte strings: true exactly when the
/// two are equal. When the lengths match, every byte pair is inspected.
pub fn ct_eq(a: &Vec<u8>, b: &Vec<u8>) -> (r: bool)
    ensures
        r <==> a@ == b@,
{
    if a.len() != b.len() {
        return false;
    }
    ct_eq_same_len(a, b)
}

} // verus!
