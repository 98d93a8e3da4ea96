//! Little-endian limb sequences and their integer value.
//!
//! A 256-bit unsigned integer is held as 8 limbs of 32 bits each, least
//! significant limb first.  The spec functions here give such a sequence its
//! mathematical value and provide the lemmas that the arithmetic routines
//! build their loop invariants on.

use vstd::prelude::*;
use vstd::arithmetic::power2::*;
use vstd::arithmetic::mul::*;

verus! {

/// Value of the first `n` limbs of `s`, each limb weighted by `2^(32*i)`.
pub open spec fn limbs_val_prefix(s: Seq<u32>, n: int) -> int
    decreases n,
{
    if n <= 0 {
        0
    } else {
        limbs_val_prefix(s, n - 1) + s[n - 1] * pow2((32 * (n - 1)) as nat)
    }
}

/// Value of a whole limb sequence.
pub open spec fn limbs_val(s: Seq<u32>) -> int {
    limbs_val_prefix(s, s.len() as int)
}

/// The first `n` limbs of a sequence always denote a value in `[0, 2^(32n))`.
pub proof fn lemma_limbs_val_prefix_bound(s: Seq<u32>, n: int)
    requires
        0 <= n <= s.len(),
    ensures
        0 <= limbs_val_prefix(s, n) < pow2((32 * n) as nat),
    decreases n,
{
    lemma_pow2_pos((32 * n) as nat);
    if n > 0 {
        lemma_limbs_val_prefix_bound(s, n - 1);
        lemma_pow2_pos((32 * (n - 1)) as nat);
        assert(s[n - 1] <= 0xFFFF_FFFFu32);
        lemma_mul_inequality(s[n - 1] as int, 0xFFFF_FFFF, pow2((32 * (n - 1)) as nat) as int);
        lemma_pow2_adds((32 * (n - 1)) as nat, 32);
        lemma2_to64();
        assert(pow2(32) == 0x1_0000_0000);
        assert(pow2((32 * (n - 1)) as nat) * pow2(32)
            == pow2((32 * (n - 1)) as nat) * 0x1_0000_0000);
        lemma_mul_is_distributive_add_other_way(
            pow2((32 * (n - 1)) as nat) as int,
            0xFFFF_FFFF,
            1,
        );
    }
}

/// Updating a limb at or past the prefix leaves the prefix value unchanged.
pub proof fn lemma_limbs_val_prefix_update_beyond(s: Seq<u32>, n: int, k: int, x: u32)
    requires
        0 <= n <= k < s.len(),
    ensures
        limbs_val_prefix(s.update(k, x), n) == limbs_val_prefix(s, n),
    decreases n,
{
    if n > 0 {
        lemma_limbs_val_prefix_update_beyond(s, n - 1, k, x);
    }
}

/// Updating a limb inside the prefix shifts the prefix value by the weighted
/// difference of the new and old limb.
pub proof fn lemma_limbs_val_prefix_update_within(s: Seq<u32>, n: int, k: int, x: u32)
    requires
        0 <= k < n <= s.len(),
    ensures
        limbs_val_prefix(s.update(k, x), n)
            == limbs_val_prefix(s, n) + (x - s[k]) * pow2((32 * k) as nat),
    decreases n,
{
    if k == n - 1 {
        lemma_limbs_val_prefix_update_beyond(s, n - 1, k, x);
        lemma_mul_is_distributive_sub_other_way(pow2((32 * k) as nat) as int, x as int, s[k] as int);
    } else {
        lemma_limbs_val_prefix_update_within(s, n - 1, k, x);
    }
}

/// Two sequences agreeing on the first `n` limbs have the same prefix value.
pub proof fn lemma_limbs_val_prefix_congruence(s1: Seq<u32>, s2: Seq<u32>, n: int)
    requires
        0 <= n <= s1.len(),
        n <= s2.len(),
        forall|i: int| 0 <= i < n ==> s1[i] == s2[i],
    ensures
        limbs_val_prefix(s1, n) == limbs_val_prefix(s2, n),
    decreases n,
{
    if n > 0 {
        lemma_limbs_val_prefix_congruence(s1, s2, n - 1);
    }
}

/// A prefix value determines the limbs it ranges over: equal values mean
/// equal limbs.
pub proof fn lemma_limbs_val_prefix_injective(s1: Seq<u32>, s2: Seq<u32>, n: int)
    requires
        0 <= n <= s1.len(),
        n <= s2.len(),
        limbs_val_prefix(s1, n) == limbs_val_prefix(s2, n),
    ensures
        forall|i: int| 0 <= i < n ==> s1[i] == s2[i],
    decreases n,
{
    if n > 0 {
        lemma_limbs_val_prefix_bound(s1, n - 1);
        lemma_limbs_val_prefix_bound(s2, n - 1);
        let p = pow2((32 * (n - 1)) as nat) as int;
        lemma_pow2_pos((32 * (n - 1)) as nat);
        // Both prefix values split uniquely as low + limb * p with low in [0, p).
        let v = limbs_val_prefix(s1, n);
        assert(limbs_val_prefix(s1, n - 1) == v - s1[n - 1] * p);
        assert(limbs_val_prefix(s2, n - 1) == v - s2[n - 1] * p);
        if s1[n - 1] != s2[n - 1] {
            let a = s1[n - 1] as int;
            let b = s2[n - 1] as int;
            if a < b {
                lemma_mul_inequality(a + 1, b, p);
                lemma_mul_is_distributive_add_other_way(p, a, 1);
                assert(a * p + p <= b * p);
                assert(false);
            } else {
                lemma_mul_inequality(b + 1, a, p);
                lemma_mul_is_distributive_add_other_way(p, b, 1);
                assert(false);
            }
        }
        lemma_limbs_val_prefix_injective(s1, s2, n - 1);
    }
}

} // verus!
