//! Big-endian fixed-width byte encoding of the per-position index that the
//! dispatcher places in every log it emits.

use vstd::prelude::*;
use crate::types::pow256;

verus! {

/// The `k`-byte big-endian encoding of `n` (mod 256^k).
pub open spec fn be_bytes(n: nat, k: nat) -> Seq<u8>
    decreases k,
{
    if k == 0 {
        Seq::empty()
    } else {
        be_bytes(n / 256, (k - 1) as nat).push((n % 256) as u8)
    }
}

/// Builds the `k`-byte big-endian encoding of `n`.
pub fn be_bytes_of(n: usize, k: usize) -> (r: Vec<u8>)
    ensures
        r@ == be_bytes(n as nat, k as nat),
    decreases k,
{
    if k == 0 {
        Vec::new()
    } else {
        let mut r = be_bytes_of(n / 256, k - 1);
        r.push((n % 256) as u8);
        r
    }
}

pub proof fn lemma_be_bytes_len(n: nat, k: nat)
    ensures
        be_bytes(n, k).len() == k,
    decreases k,
{
    if k > 0 {
        lemma_be_bytes_len(n / 256, (k - 1) as nat);
    }
}

/// Distinct values below 256^k have distinct `k`-byte encodings.
pub proof fn lemma_be_bytes_injective(a: nat, b: nat, k: nat)
    requires
        a < pow256(k),
        b < pow256(k),
        be_bytes(a, k) == be_bytes(b, k),
    ensures
        a == b,
    decreases k,
{
    if k == 0 {
        assert(pow256(0) == 1);
    } else {
        lemma_be_bytes_len(a / 256, (k - 1) as nat);
        lemma_be_bytes_len(b / 256, (k - 1) as nat);
        let sa = be_bytes(a / 256, (k - 1) as nat);
        let sb = be_bytes(b / 256, (k - 1) as nat);
        assert(sa.push((a % 256) as u8)[k - 1] == (a % 256) as u8);
        assert(sb.push((b % 256) as u8)[k - 1] == (b % 256) as u8);
        assert(a % 256 == b % 256);
        assert(sa =~= sb) by {
            assert(forall|j: int| 0 <= j < k - 1 ==> sa.push((a % 256) as u8)[j] == sa[j]);
            assert(forall|j: int| 0 <= j < k - 1 ==> sb.push((b % 256) as u8)[j] == sb[j]);
        }
        assert(a / 256 < pow256((k - 1) as nat)) by {
            lemma_div_bound(a, (k - 1) as nat);
        }
        assert(b / 256 < pow256((k - 1) as nat)) by {
            lemma_div_bound(b, (k - 1) as nat);
        }
        lemma_be_bytes_injective(a / 256, b / 256, (k - 1) as nat);
        vstd::arithmetic::div_mod::lemma_fundamental_div_mod(a as int, 256);
        vstd::arithmetic::div_mod::lemma_fundamental_div_mod(b as int, 256);
    }
}

/// A 32-byte word can hold any 64-bit position: the encoding of distinct
/// positions that fit a `u64` is always distinct.
pub proof fn lemma_pow256_32_exceeds_u64()
    ensures
        pow256(32) > u64::MAX,
{
    assert(pow256(16) > u64::MAX) by {
        reveal_with_fuel(pow256, 17);
    }
    assert(pow256(32) >= pow256(16)) by {
        lemma_pow256_monotone(16, 32);
    }
}

proof fn lemma_pow256_monotone(a: nat, b: nat)
    requires
        a <= b,
    ensures
        pow256(a) <= pow256(b),
        pow256(a) >= 1,
    decreases b,
{
    if a < b {
        lemma_pow256_monotone(a, (b - 1) as nat);
    } else if b > 0 {
        lemma_pow256_monotone((a - 1) as nat, (b - 1) as nat);
    }
}

proof fn lemma_div_bound(a: nat, km1: nat)
    requires
        a < 256 * pow256(km1),
    ensures
        a / 256 < pow256(km1),
{
    vstd::arithmetic::div_mod::lemma_multiply_divide_lt(a as int, 256, pow256(km1) as int);
}

} // verus!
