//! The per-query digest accumulator.
//!
//! Trie circuits expose, besides a root commitment, a group-additive digest
//! that accumulates one contribution per matching entry.  Aggregation nodes
//! add their children's digests; the addition is commutative, so the digest
//! deliberately forgets the order in which entries were combined, while the
//! root commitment (a hash) does not.  The group here is componentwise
//! addition modulo the Goldilocks prime over 4 coordinates.

use vstd::prelude::*;
use vstd::arithmetic::div_mod::*;

use crate::hash::{node_hash, node_hash_of};

verus! {

/// The Goldilocks prime `2^64 - 2^32 + 1`.
pub const GOLDILOCKS_P: u64 = 0xFFFF_FFFF_0000_0001;

/// A group element of the digest accumulator: 4 coordinates below the prime.
#[derive(Clone, Copy, Debug)]
pub struct Digest {
    pub coords: [u64; 4],
}

/// Addition of two coordinates modulo the prime.
pub open spec fn add_mod(a: u64, b: u64) -> u64 {
    (((a + b) as int) % (GOLDILOCKS_P as int)) as u64
}

impl Digest {
    /// All coordinates are reduced below the prime.
    pub open spec fn wf(self) -> bool {
        forall|i: int| 0 <= i < 4 ==> self.coords@[i] < GOLDILOCKS_P
    }

    /// The group's spec-level addition, componentwise modulo the prime.
    pub open spec fn add_spec(self, other: Digest) -> Digest {
        Digest {
            coords: [
                add_mod(self.coords@[0], other.coords@[0]),
                add_mod(self.coords@[1], other.coords@[1]),
                add_mod(self.coords@[2], other.coords@[2]),
                add_mod(self.coords@[3], other.coords@[3]),
            ],
        }
    }

    /// The neutral element.
    pub open spec fn zero_spec() -> Digest {
        Digest { coords: [0u64, 0u64, 0u64, 0u64] }
    }

    /// The neutral element, executable.
    pub fn zero() -> (r: Digest)
        ensures
            r == Digest::zero_spec(),
            r.wf(),
    {
        let r = Digest { coords: [0u64; 4] };
        proof {
            assert(r.coords =~= Digest::zero_spec().coords);
        }
        r
    }

    /// Group addition.
    pub fn add(&self, other: &Digest) -> (r: Digest)
        requires
            self.wf(),
            other.wf(),
        ensures
            r == self.add_spec(*other),
            r.wf(),
    {
        let mut out: [u64; 4] = [0u64; 4];
        let mut i: usize = 0;
        while i < 4
            invariant
                i <= 4,
                self.wf(),
                other.wf(),
                forall|j: int| 0 <= j < i
                    ==> out@[j] == add_mod(self.coords@[j], other.coords@[j])
                        && out@[j] < GOLDILOCKS_P,
            decreases 4 - i,
        {
            let a: u64 = self.coords[i];
            let b: u64 = other.coords[i];
            let s: u128 = a as u128 + b as u128;
            let c: u64;
            if s >= GOLDILOCKS_P as u128 {
                c = (s - GOLDILOCKS_P as u128) as u64;
                proof {
                    lemma_mod_sub_multiples_vanish((a + b) as int, GOLDILOCKS_P as int);
                    lemma_small_mod((a + b - GOLDILOCKS_P) as nat, GOLDILOCKS_P as nat);
                }
            } else {
                c = s as u64;
                proof {
                    lemma_small_mod((a + b) as nat, GOLDILOCKS_P as nat);
                }
            }
            out[i] = c;
            i = i + 1;
        }
        let r = Digest { coords: out };
        proof {
            assert(r.coords =~= self.add_spec(*other).coords);
        }
        r
    }

    /// Equality of two digests.
    pub fn equals(&self, other: &Digest) -> (r: bool)
        ensures
            r <==> self.coords@ == other.coords@,
    {
        let r = self.coords[0] == other.coords[0] && self.coords[1] == other.coords[1]
            && self.coords[2] == other.coords[2] && self.coords[3] == other.coords[3];
        proof {
            if r {
                assert(self.coords@ =~= other.coords@);
            }
        }
        r
    }
}

/// The digest contribution of an entry, derived from its packed words by the
/// commitment hash with every coordinate reduced below the prime.
pub open spec fn digest_of_words(s: Seq<u64>) -> Digest {
    let h = node_hash_of(s);
    Digest {
        coords: [
            reduce_mod(h[0]),
            reduce_mod(h[1]),
            reduce_mod(h[2]),
            reduce_mod(h[3]),
        ],
    }
}

/// Reduction of an arbitrary word below the prime.
pub open spec fn reduce_mod(w: u64) -> u64 {
    ((w as int) % (GOLDILOCKS_P as int)) as u64
}

/// Compute an entry's digest contribution from its packed words.
pub fn digest_from_words(words: &Vec<u64>) -> (r: Digest)
    ensures
        r == digest_of_words(words@),
        r.wf(),
{
    let h = node_hash(words);
    let mut out: [u64; 4] = [0u64; 4];
    let mut i: usize = 0;
    while i < 4
        invariant
            i <= 4,
            forall|j: int| 0 <= j < i
                ==> out@[j] == reduce_mod(h@[j]) && out@[j] < GOLDILOCKS_P,
        decreases 4 - i,
    {
        let w: u64 = h[i];
        let c: u64;
        if w >= GOLDILOCKS_P {
            c = w - GOLDILOCKS_P;
            proof {
                lemma_mod_sub_multiples_vanish(w as int, GOLDILOCKS_P as int);
                lemma_small_mod((w - GOLDILOCKS_P) as nat, GOLDILOCKS_P as nat);
            }
        } else {
            c = w;
            proof {
                lemma_small_mod(w as nat, GOLDILOCKS_P as nat);
            }
        }
        out[i] = c;
        i = i + 1;
    }
    let r = Digest { coords: out };
    proof {
        assert(r.coords =~= digest_of_words(words@).coords);
    }
    r
}

/// Sum of the first `k` digests of a sequence, starting from the neutral
/// element and adding left to right.
pub open spec fn digest_sum_prefix(s: Seq<Digest>, k: int) -> Digest
    decreases k,
{
    if k <= 0 {
        Digest::zero_spec()
    } else {
        digest_sum_prefix(s, k - 1).add_spec(s[k - 1])
    }
}

/// Summing well-formed digests keeps the sum well-formed.
pub proof fn lemma_digest_sum_prefix_wf(s: Seq<Digest>, k: int)
    requires
        0 <= k <= s.len(),
        forall|i: int| 0 <= i < s.len() ==> s[i].wf(),
    ensures
        digest_sum_prefix(s, k).wf(),
    decreases k,
{
    if k > 0 {
        lemma_digest_sum_prefix_wf(s, k - 1);
        lemma_add_spec_wf(digest_sum_prefix(s, k - 1), s[k - 1]);
    }
}

proof fn lemma_add_spec_wf(a: Digest, b: Digest)
    ensures
        a.add_spec(b).wf(),
{
    assert forall|i: int| 0 <= i < 4 implies a.add_spec(b).coords@[i] < GOLDILOCKS_P by {
        lemma_mod_bound((a.coords@[i] + b.coords@[i]) as int, GOLDILOCKS_P as int);
    }
}

/// Sum the first `k` digests of a vector.
pub fn sum_digests_prefix(ds: &Vec<Digest>, k: usize) -> (r: Digest)
    requires
        k <= ds@.len(),
        forall|i: int| 0 <= i < ds@.len() ==> ds@[i].wf(),
    ensures
        r == digest_sum_prefix(ds@, k as int),
        r.wf(),
{
    let mut acc = Digest::zero();
    let mut i: usize = 0;
    while i < k
        invariant
            i <= k <= ds@.len(),
            forall|j: int| 0 <= j < ds@.len() ==> ds@[j].wf(),
            acc == digest_sum_prefix(ds@, i as int),
            acc.wf(),
        decreases k - i,
    {
        acc = acc.add(&ds[i]);
        i = i + 1;
    }
    acc
}

/// The digest accumulation is commutative: combining two digests in either
/// order yields the same group element, even though the hash-based root
/// commitment of the same two children is order-sensitive.
pub proof fn lemma_digest_add_commutes(a: Digest, b: Digest)
    ensures
        a.add_spec(b) == b.add_spec(a),
{
    assert(a.add_spec(b).coords =~= b.add_spec(a).coords);
}

} // verus!
