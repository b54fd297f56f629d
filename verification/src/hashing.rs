//! Password hashing.
//!
//! Passwords are never stored: the stores hold `hash_of` the password
//! bytes, and verification compares hashes. The digest is a multiplicative
//! fold kept below 2^32 so the arithmetic stays inside `u64`.

use vstd::prelude::*;

verus! {

/// The digest of a byte string: a left fold `h -> (h * 31 + byte) mod 2^32`
/// from the seed 5381.
pub open spec fn hash_of(s: Seq<u8>) -> u64
    decreases s.len(),
{
    if s.len() == 0 {
        5381u64
    } else {
        (((hash_of(s.drop_last()) * 31) + s.last()) % 0x1_0000_0000) as u64
    }
}

/// Computes `hash_of` of the given bytes.
pub fn hash_bytes(s: &Vec<u8>) -> (h: u64)
    ensures
        h == hash_of(s@),
{
    let n = s.len();
    let mut h: u64 = 5381;
    let mut i: usize = 0;
    while i < n
        invariant
            n == s@.len(),
            0 <= i <= n,
            h == hash_of(s@.subrange(0, i as int)),
            h < 0x1_0000_0000,
        decreases n - i,
    {
        h = (h * 31 + s[i] as u64) % 0x1_0000_0000;
        proof {
            let pre = s@.subrange(0, i as int);
            let cur = s@.subrange(0, i + 1);
            assert(cur.drop_last() =~= pre);
            assert(cur.last() == s@[i as int]);
        }
        i += 1;
    }
    proof {
        assert(s@.subrange(0, n as int) =~= s@);
    }
    h
}

} // verus!
