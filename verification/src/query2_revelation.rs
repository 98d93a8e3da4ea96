//! The terminal circuit of the per-entry query: it binds an aggregation
//! proof to a block-database proof like the accumulator variant, and
//! additionally recomputes the aggregated digest from an explicit witness of
//! the matching entries, enforcing that the exposed entries are genuine,
//! strictly ordered and counted by an explicit real-entry count.

use vstd::prelude::*;

use crate::digest::{digest_of_words, digest_sum_prefix, sum_digests_prefix, Digest};
use crate::erc20_storage::slice_range;
use crate::errors::ProofError;
use crate::revelation::{
    empty_merkle_root, empty_merkle_root_of, BlockDbPublicInputs, RevelationPublicInputs,
    RESULT_ENTRIES,
};

verus! {

/// Total word length of the per-entry aggregation family's public inputs.
pub const QUERY2_BLOCK_TOTAL_LEN: usize = 25;

/// The public inputs of a per-entry aggregation proof: block number, range,
/// root, the two addresses, the slot identifiers and the entry digest.
#[derive(Clone, Debug)]
pub struct Query2BlockPublicInputs {
    pub inputs: Vec<u64>,
}

impl Query2BlockPublicInputs {
    /// The layout has its declared length.
    pub open spec fn wf(self) -> bool {
        self.inputs@.len() == QUERY2_BLOCK_TOTAL_LEN
    }

    /// Read a layout from a public-input slice of exactly the declared
    /// length; a slice of any other length is a caller error the layout
    /// refuses.
    pub fn from_slice(arr: &[u64]) -> (r: Query2BlockPublicInputs)
        requires
            arr@.len() == QUERY2_BLOCK_TOTAL_LEN,
        ensures
            r.inputs@ == arr@,
            r.wf(),
    {
        let r = Self::from_prefix(arr);
        proof {
            assert(arr@.take(QUERY2_BLOCK_TOTAL_LEN as int) =~= arr@);
        }
        r
    }

    /// Read a layout off the front of a longer word vector, as when a
    /// proof's public inputs carry the set digest after the layout.
    pub(crate) fn from_prefix(arr: &[u64]) -> (r: Query2BlockPublicInputs)
        requires
            arr@.len() >= QUERY2_BLOCK_TOTAL_LEN,
        ensures
            r.inputs@ == arr@.take(QUERY2_BLOCK_TOTAL_LEN as int),
            r.wf(),
    {
        let mut inputs: Vec<u64> = Vec::new();
        let mut i: usize = 0;
        while i < QUERY2_BLOCK_TOTAL_LEN
            invariant
                i <= QUERY2_BLOCK_TOTAL_LEN,
                arr@.len() >= QUERY2_BLOCK_TOTAL_LEN,
                inputs@.len() == i,
                forall|j: int| 0 <= j < i ==> inputs@[j] == arr@[j],
            decreases QUERY2_BLOCK_TOTAL_LEN - i,
        {
            inputs.push(arr[i]);
            i = i + 1;
        }
        proof {
            assert(inputs@ =~= arr@.take(QUERY2_BLOCK_TOTAL_LEN as int));
        }
        Query2BlockPublicInputs { inputs }
    }
}

/// Witness data of the per-entry revelation circuit: the raw matching keys,
/// how many of them are genuine, and the query's requested bounds.  An
/// explicit count is needed because zero is a valid entry, so no value can
/// mark an empty slot.
#[derive(Clone, Debug)]
pub struct RevelationCircuit {
    pub packed_keys: Vec<[u64; 8]>,
    pub num_entries: usize,
    pub query_min_block_number: u64,
    pub query_max_block_number: u64,
}

/// The digest of the first `k` witnessed keys.
pub open spec fn keys_digest_sum(keys: Seq<[u64; 8]>, k: int) -> Digest {
    digest_sum_prefix(Seq::new(keys.len(), |i: int| digest_of_words(keys[i]@)), k)
}

/// The entry exposed for a witnessed key: its last packed word.
pub open spec fn entry_of_key(key: [u64; 8]) -> u64 {
    key@[7]
}

/// The checks the per-entry revelation enforces: genuine entries strictly
/// ordered, the aggregated digest recomputed from exactly the genuine
/// entries, shared roots, a database grown from the empty tree, and the
/// proved range within the requested bounds.
pub open spec fn query2_revelation_checks(
    c: RevelationCircuit,
    db: BlockDbPublicInputs,
    agg: Query2BlockPublicInputs,
    depth: nat,
) -> bool {
    let k = c.num_entries as int;
    let bq = agg.inputs@[0];
    let rq = agg.inputs@[1];
    &&& k <= RESULT_ENTRIES
    &&& k <= c.packed_keys@.len()
    &&& (forall|i: int| 0 < i < k
        ==> entry_of_key(#[trigger] c.packed_keys@[i - 1]) < entry_of_key(c.packed_keys@[i]))
    &&& agg.inputs@.subrange(21, 25) == keys_digest_sum(c.packed_keys@, k).coords@
    &&& agg.inputs@.subrange(2, 6) == db.inputs@.subrange(4, 8)
    &&& db.inputs@.subrange(0, 4) == empty_merkle_root_of(depth)
    &&& rq <= bq + 1
    &&& bq + 1 - rq >= c.query_min_block_number
    &&& bq <= c.query_max_block_number
}

impl RevelationCircuit {
    /// Bind a database proof to a per-entry aggregation proof.  Exactly the
    /// genuine entries are exposed, in their strict order, with the
    /// real-entry count; the aggregated digest must match what the witness
    /// recomputes, so no entry can be added, dropped or double counted.
    pub fn build(
        &self,
        db_proof: &BlockDbPublicInputs,
        root_proof: &Query2BlockPublicInputs,
        max_depth: usize,
    ) -> (r: Result<RevelationPublicInputs, ProofError>)
        requires
            db_proof.wf(),
            root_proof.wf(),
        ensures
            r is Ok <==> query2_revelation_checks(*self, *db_proof, *root_proof, max_depth as nat),
            r is Ok ==> {
                let out = r->Ok_0.inputs@;
                &&& r->Ok_0.wf()
                &&& out[0] == root_proof.inputs@[0]
                &&& out[1] == root_proof.inputs@[1]
                &&& out[2] == self.query_min_block_number
                &&& out[3] == self.query_max_block_number
                &&& out.subrange(4, 9) == root_proof.inputs@.subrange(6, 11)
                &&& out.subrange(9, 14) == root_proof.inputs@.subrange(14, 19)
                &&& out[14] == root_proof.inputs@[19]
                &&& out[15] == root_proof.inputs@[20]
                &&& (forall|j: int| 0 <= j < self.num_entries
                    ==> out[16 + j] == entry_of_key(#[trigger] self.packed_keys@[j]))
                &&& (forall|j: int| self.num_entries <= j < 5 ==> #[trigger] out[16 + j] == 0u64)
                &&& out.subrange(21, 29) == db_proof.inputs@.subrange(10, 18)
                &&& (forall|j: int| 29 <= j < 45 ==> #[trigger] out[j] == 0u64)
            },
    {
        if self.num_entries > RESULT_ENTRIES || self.num_entries > self.packed_keys.len() {
            return Err(ProofError::BadPublicInputLength);
        }
        let k = self.num_entries;
        let mut i: usize = 1;
        while i < k
            invariant
                1 <= i <= k || (k == 0 && i == 1),
                k == self.num_entries,
                k <= self.packed_keys@.len(),
                forall|t: int| 0 < t < i
                    ==> entry_of_key(#[trigger] self.packed_keys@[t - 1])
                        < entry_of_key(self.packed_keys@[t]),
            decreases k - i,
        {
            if self.packed_keys[i - 1][7] >= self.packed_keys[i][7] {
                proof {
                    let w = i as int;
                    assert(0 < w < self.num_entries as int);
                    assert(!(entry_of_key(self.packed_keys@[w - 1])
                        < entry_of_key(self.packed_keys@[w])));
                    assert(!(forall|t: int| 0 < t < self.num_entries as int
                        ==> entry_of_key(#[trigger] self.packed_keys@[t - 1])
                            < entry_of_key(self.packed_keys@[t])));
                }
                return Err(ProofError::UnorderedResults);
            }
            i = i + 1;
        }
        let mut digests: Vec<Digest> = Vec::new();
        let mut d: usize = 0;
        while d < k
            invariant
                d <= k <= self.packed_keys@.len(),
                k == self.num_entries,
                digests@.len() == d,
                forall|t: int| 0 <= t < d
                    ==> #[trigger] digests@[t] == digest_of_words(self.packed_keys@[t]@)
                        && digests@[t].wf(),
            decreases k - d,
        {
            let key = self.packed_keys[d];
            let mut words: Vec<u64> = Vec::new();
            let mut w: usize = 0;
            while w < 8
                invariant
                    w <= 8,
                    words@.len() == w,
                    forall|j: int| 0 <= j < w ==> words@[j] == key@[j],
                decreases 8 - w,
            {
                words.push(key[w]);
                w = w + 1;
            }
            proof {
                assert(words@ =~= key@);
            }
            digests.push(crate::digest::digest_from_words(&words));
            d = d + 1;
        }
        let computed = sum_digests_prefix(&digests, k);
        proof {
            lemma_keys_digest_sum_same(digests@, self.packed_keys@, k as int);
        }
        let exposed = slice_range(&root_proof.inputs, 21, 25);
        let mut computed_vec: Vec<u64> = Vec::new();
        computed_vec.push(computed.coords[0]);
        computed_vec.push(computed.coords[1]);
        computed_vec.push(computed.coords[2]);
        computed_vec.push(computed.coords[3]);
        proof {
            assert(computed_vec@ =~= computed.coords@);
        }
        if !crate::erc20_block::word_vecs_equal(&exposed, &computed_vec) {
            return Err(ProofError::DigestMismatch);
        }
        let agg_root = slice_range(&root_proof.inputs, 2, 6);
        let db_root = slice_range(&db_proof.inputs, 4, 8);
        if !crate::erc20_block::word_vecs_equal(&agg_root, &db_root) {
            return Err(ProofError::MismatchedRoots);
        }
        let empty_root = empty_merkle_root(max_depth);
        let db_init = slice_range(&db_proof.inputs, 0, 4);
        let mut empty_vec: Vec<u64> = Vec::new();
        empty_vec.push(empty_root[0]);
        empty_vec.push(empty_root[1]);
        empty_vec.push(empty_root[2]);
        empty_vec.push(empty_root[3]);
        proof {
            assert(empty_vec@ =~= empty_root@);
        }
        if !crate::erc20_block::word_vecs_equal(&db_init, &empty_vec) {
            return Err(ProofError::BadInitialRoot);
        }
        let bq: u64 = root_proof.inputs[0];
        let rq: u64 = root_proof.inputs[1];
        if rq > bq {
            // A range one longer than the block number reaches block 0
            // exactly; anything longer covers no block at all.
            if rq - bq != 1 || self.query_min_block_number != 0 {
                return Err(ProofError::BoundsMismatch);
            }
        } else {
            if !(self.query_min_block_number == 0
                || bq - rq >= self.query_min_block_number - 1) {
                return Err(ProofError::BoundsMismatch);
            }
        }
        if bq > self.query_max_block_number {
            return Err(ProofError::BoundsMismatch);
        }
        let mut inputs: Vec<u64> = Vec::new();
        inputs.push(bq);
        inputs.push(rq);
        inputs.push(self.query_min_block_number);
        inputs.push(self.query_max_block_number);
        let mut a: usize = 6;
        while a < 11
            invariant
                6 <= a <= 11,
                root_proof.wf(),
                inputs@.len() == 4 + (a - 6),
                inputs@[0] == root_proof.inputs@[0],
                inputs@[1] == root_proof.inputs@[1],
                inputs@[2] == self.query_min_block_number,
                inputs@[3] == self.query_max_block_number,
                forall|j: int| 0 <= j < a - 6 ==> #[trigger] inputs@[4 + j]
                    == root_proof.inputs@[6 + j],
            decreases 11 - a,
        {
            inputs.push(root_proof.inputs[a]);
            a = a + 1;
        }
        let mut u: usize = 14;
        while u < 21
            invariant
                14 <= u <= 21,
                root_proof.wf(),
                inputs@.len() == 9 + (u - 14),
                inputs@[0] == root_proof.inputs@[0],
                inputs@[1] == root_proof.inputs@[1],
                inputs@[2] == self.query_min_block_number,
                inputs@[3] == self.query_max_block_number,
                forall|j: int| 0 <= j < 5 ==> #[trigger] inputs@[4 + j]
                    == root_proof.inputs@[6 + j],
                forall|j: int| 0 <= j < u - 14 ==> #[trigger] inputs@[9 + j]
                    == root_proof.inputs@[14 + j],
            decreases 21 - u,
        {
            inputs.push(root_proof.inputs[u]);
            u = u + 1;
        }
        let mut e: usize = 0;
        while e < RESULT_ENTRIES
            invariant
                e <= RESULT_ENTRIES,
                k <= self.packed_keys@.len(),
                k <= RESULT_ENTRIES,
                inputs@.len() == 16 + e,
                inputs@[0] == root_proof.inputs@[0],
                inputs@[1] == root_proof.inputs@[1],
                inputs@[2] == self.query_min_block_number,
                inputs@[3] == self.query_max_block_number,
                forall|j: int| 0 <= j < 5 ==> #[trigger] inputs@[4 + j]
                    == root_proof.inputs@[6 + j],
                forall|j: int| 0 <= j < 7 ==> #[trigger] inputs@[9 + j]
                    == root_proof.inputs@[14 + j],
                forall|j: int| 0 <= j < e && j < k ==> #[trigger] inputs@[16 + j]
                    == entry_of_key(self.packed_keys@[j]),
                forall|j: int| k <= j < e ==> #[trigger] inputs@[16 + j] == 0u64,
            decreases RESULT_ENTRIES - e,
        {
            if e < k {
                inputs.push(self.packed_keys[e][7]);
            } else {
                inputs.push(0u64);
            }
            e = e + 1;
        }
        let mut h: usize = 10;
        while h < 18
            invariant
                10 <= h <= 18,
                db_proof.wf(),
                k <= RESULT_ENTRIES,
                inputs@.len() == 21 + (h - 10),
                inputs@[0] == root_proof.inputs@[0],
                inputs@[1] == root_proof.inputs@[1],
                inputs@[2] == self.query_min_block_number,
                inputs@[3] == self.query_max_block_number,
                forall|j: int| 0 <= j < 5 ==> #[trigger] inputs@[4 + j]
                    == root_proof.inputs@[6 + j],
                forall|j: int| 0 <= j < 7 ==> #[trigger] inputs@[9 + j]
                    == root_proof.inputs@[14 + j],
                forall|j: int| 0 <= j < 5 && j < k ==> #[trigger] inputs@[16 + j]
                    == entry_of_key(self.packed_keys@[j]),
                forall|j: int| k <= j < 5 ==> #[trigger] inputs@[16 + j] == 0u64,
                forall|j: int| 0 <= j < h - 10 ==> #[trigger] inputs@[21 + j]
                    == db_proof.inputs@[10 + j],
            decreases 18 - h,
        {
            inputs.push(db_proof.inputs[h]);
            h = h + 1;
        }
        let mut z: usize = 0;
        while z < 16
            invariant
                z <= 16,
                k <= RESULT_ENTRIES,
                inputs@.len() == 29 + z,
                inputs@[0] == root_proof.inputs@[0],
                inputs@[1] == root_proof.inputs@[1],
                inputs@[2] == self.query_min_block_number,
                inputs@[3] == self.query_max_block_number,
                forall|j: int| 0 <= j < 5 ==> #[trigger] inputs@[4 + j]
                    == root_proof.inputs@[6 + j],
                forall|j: int| 0 <= j < 7 ==> #[trigger] inputs@[9 + j]
                    == root_proof.inputs@[14 + j],
                forall|j: int| 0 <= j < 5 && j < k ==> #[trigger] inputs@[16 + j]
                    == entry_of_key(self.packed_keys@[j]),
                forall|j: int| k <= j < 5 ==> #[trigger] inputs@[16 + j] == 0u64,
                forall|j: int| 0 <= j < 8 ==> #[trigger] inputs@[21 + j]
                    == db_proof.inputs@[10 + j],
                forall|j: int| 0 <= j < z ==> #[trigger] inputs@[29 + j] == 0u64,
            decreases 16 - z,
        {
            inputs.push(0u64);
            z = z + 1;
        }
        let out = RevelationPublicInputs { inputs };
        proof {
            assert forall|j: int| 0 <= j < 5
                implies out.inputs@.subrange(4, 9)[j] == root_proof.inputs@.subrange(6, 11)[j] by {
                assert(out.inputs@[4 + j] == root_proof.inputs@[6 + j]);
            }
            assert(out.inputs@.subrange(4, 9) =~= root_proof.inputs@.subrange(6, 11));
            assert forall|j: int| 0 <= j < 5
                implies out.inputs@.subrange(9, 14)[j] == root_proof.inputs@.subrange(14, 19)[j] by {
                assert(out.inputs@[9 + j] == root_proof.inputs@[14 + j]);
            }
            assert(out.inputs@.subrange(9, 14) =~= root_proof.inputs@.subrange(14, 19));
            assert(out.inputs@[14] == out.inputs@[9 + 5int]);
            assert(out.inputs@[15] == out.inputs@[9 + 6int]);
            assert forall|j: int| 0 <= j < 8
                implies out.inputs@.subrange(21, 29)[j] == db_proof.inputs@.subrange(10, 18)[j] by {
                assert(out.inputs@[21 + j] == db_proof.inputs@[10 + j]);
            }
            assert(out.inputs@.subrange(21, 29) =~= db_proof.inputs@.subrange(10, 18));
            assert forall|j: int| 29 <= j < 45 implies out.inputs@[j] == 0u64 by {
                assert(out.inputs@[29 + (j - 29)] == 0u64);
            }
            assert(root_proof.inputs@.subrange(21, 25) =~= exposed@);
            assert(root_proof.inputs@.subrange(2, 6) =~= agg_root@);
            assert(db_proof.inputs@.subrange(4, 8) =~= db_root@);
            assert(db_proof.inputs@.subrange(0, 4) =~= db_init@);
            assert(root_proof.inputs@.subrange(21, 25)
                == keys_digest_sum(self.packed_keys@, self.num_entries as int).coords@);
        }
        Ok(out)
    }
}

/// The digest vector computed from the witnessed keys matches the spec-level
/// key digest sum.
proof fn lemma_keys_digest_sum_same(digests: Seq<Digest>, keys: Seq<[u64; 8]>, k: int)
    requires
        0 <= k <= digests.len(),
        k <= keys.len(),
        forall|t: int| 0 <= t < k ==> #[trigger] digests[t] == digest_of_words(keys[t]@),
    ensures
        digest_sum_prefix(digests, k) == keys_digest_sum(keys, k),
    decreases k,
{
    if k > 0 {
        lemma_keys_digest_sum_same(digests, keys, k - 1);
        assert(Seq::new(keys.len(), |i: int| digest_of_words(keys[i]@))[k - 1]
            == digest_of_words(keys[k - 1]@));
    }
}

} // verus!
