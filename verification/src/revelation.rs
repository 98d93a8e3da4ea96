//! The terminal revelation circuits.
//!
//! A revelation step binds one range-aggregation proof to one block-database
//! proof: both must expose the same root, the database must have grown from
//! the empty tree, and the query's requested block bounds are clamped
//! against what the database actually covers — in each direction the
//! tighter of the requested and the available bound must be what the
//! aggregation proof proved.  The result is the externally consumable
//! public-input vector.

use vstd::prelude::*;

use crate::bundle::ProofWithVK;
use crate::circuit_set::RecursiveCircuits;
use crate::erc20_block::{BlockPublicInputs, word_vecs_equal, BLOCK_TOTAL_LEN};
use crate::erc20_storage::{derive_circuit_digest, slice_range};
use crate::errors::ProofError;
use crate::hash::{node_hash, node_hash_of, keccak256_bytes, keccak_of};

verus! {

/// Number of result entries the revelation layout reserves.
pub const RESULT_ENTRIES: usize = 5;

/// Total word length of the revelation public inputs.
pub const REVELATION_TOTAL_LEN: usize = 45;

/// Total word length of the block-database public inputs.
pub const BLOCK_DB_TOTAL_LEN: usize = 18;

/// The public inputs of a block-database proof: the root the database
/// started from, its current root, the first and latest block numbers it
/// covers, and the latest block's header hash.
#[derive(Clone, Debug)]
pub struct BlockDbPublicInputs {
    pub inputs: Vec<u64>,
}

impl BlockDbPublicInputs {
    /// The layout has its declared length.
    pub open spec fn wf(self) -> bool {
        self.inputs@.len() == BLOCK_DB_TOTAL_LEN
    }

    /// Read a layout from a public-input slice of exactly the declared
    /// length; a slice of any other length is a caller error the layout
    /// refuses.
    pub fn from_slice(arr: &[u64]) -> (r: BlockDbPublicInputs)
        requires
            arr@.len() == BLOCK_DB_TOTAL_LEN,
        ensures
            r.inputs@ == arr@,
            r.wf(),
    {
        let r = Self::from_prefix(arr);
        proof {
            assert(arr@.take(BLOCK_DB_TOTAL_LEN as int) =~= arr@);
        }
        r
    }

    /// Read a layout off the front of a longer word vector, as when a
    /// proof's public inputs carry the set digest after the layout.
    pub(crate) fn from_prefix(arr: &[u64]) -> (r: BlockDbPublicInputs)
        requires
            arr@.len() >= BLOCK_DB_TOTAL_LEN,
        ensures
            r.inputs@ == arr@.take(BLOCK_DB_TOTAL_LEN as int),
            r.wf(),
    {
        let mut inputs: Vec<u64> = Vec::new();
        let mut i: usize = 0;
        while i < BLOCK_DB_TOTAL_LEN
            invariant
                i <= BLOCK_DB_TOTAL_LEN,
                arr@.len() >= BLOCK_DB_TOTAL_LEN,
                inputs@.len() == i,
                forall|j: int| 0 <= j < i ==> inputs@[j] == arr@[j],
            decreases BLOCK_DB_TOTAL_LEN - i,
        {
            inputs.push(arr[i]);
            i = i + 1;
        }
        proof {
            assert(inputs@ =~= arr@.take(BLOCK_DB_TOTAL_LEN as int));
        }
        BlockDbPublicInputs { inputs }
    }

    /// Assemble a layout from its parts.
    pub fn from_parts(
        init_root: &[u64; 4],
        root: &[u64; 4],
        first_block_number: u64,
        block_number: u64,
        block_header: &[u64; 8],
    ) -> (r: BlockDbPublicInputs)
        ensures
            r.wf(),
            r.inputs@.subrange(0, 4) == init_root@,
            r.inputs@.subrange(4, 8) == root@,
            r.inputs@[8] == first_block_number,
            r.inputs@[9] == block_number,
            r.inputs@.subrange(10, 18) == block_header@,
    {
        let mut inputs: Vec<u64> = Vec::new();
        inputs.push(init_root[0]);
        inputs.push(init_root[1]);
        inputs.push(init_root[2]);
        inputs.push(init_root[3]);
        inputs.push(root[0]);
        inputs.push(root[1]);
        inputs.push(root[2]);
        inputs.push(root[3]);
        inputs.push(first_block_number);
        inputs.push(block_number);
        let mut i: usize = 0;
        while i < 8
            invariant
                i <= 8,
                inputs@.len() == 10 + i,
                forall|j: int| 0 <= j < 4 ==> inputs@[j] == init_root@[j],
                forall|j: int| 0 <= j < 4 ==> inputs@[4 + j] == root@[j],
                inputs@[8] == first_block_number,
                inputs@[9] == block_number,
                forall|j: int| 0 <= j < i ==> inputs@[10 + j] == block_header@[j],
            decreases 8 - i,
        {
            inputs.push(block_header[i]);
            i = i + 1;
        }
        let out = BlockDbPublicInputs { inputs };
        proof {
            assert(out.inputs@.subrange(0, 4) =~= init_root@);
            assert(out.inputs@.subrange(4, 8) =~= root@);
            assert(out.inputs@.subrange(10, 18) =~= block_header@);
        }
        out
    }
}

/// The root of an empty Merkle tree of the given depth: zeros at the
/// leaves, every parent hashing two equal children.
pub open spec fn empty_merkle_root_of(depth: nat) -> Seq<u64>
    decreases depth,
{
    if depth == 0 {
        seq![0u64, 0u64, 0u64, 0u64]
    } else {
        let child = empty_merkle_root_of((depth - 1) as nat);
        node_hash_of(child + child)
    }
}

/// Compute the empty-tree root for a depth.
pub fn empty_merkle_root(depth: usize) -> (r: [u64; 4])
    ensures
        r@ == empty_merkle_root_of(depth as nat),
{
    let mut acc: [u64; 4] = [0u64; 4];
    proof {
        assert(acc@ =~= empty_merkle_root_of(0));
    }
    let mut d: usize = 0;
    while d < depth
        invariant
            d <= depth,
            acc@ == empty_merkle_root_of(d as nat),
        decreases depth - d,
    {
        let mut words: Vec<u64> = Vec::new();
        words.push(acc[0]);
        words.push(acc[1]);
        words.push(acc[2]);
        words.push(acc[3]);
        words.push(acc[0]);
        words.push(acc[1]);
        words.push(acc[2]);
        words.push(acc[3]);
        proof {
            assert(words@ =~= acc@ + acc@);
        }
        acc = node_hash(&words);
        d = d + 1;
    }
    acc
}

/// The public inputs of a revelation proof.  The layout is shared by the
/// query variants of this family, so their total lengths coincide: one
/// variant fills the result-entry words, the other the packed accumulator
/// words, and each zeroes what it does not use.
#[derive(Clone, Debug)]
pub struct RevelationPublicInputs {
    pub inputs: Vec<u64>,
}

impl RevelationPublicInputs {
    /// The layout has its declared length.
    pub open spec fn wf(self) -> bool {
        self.inputs@.len() == REVELATION_TOTAL_LEN
    }

    /// Total length of the layout.
    pub fn total_len() -> (r: usize)
        ensures
            r == REVELATION_TOTAL_LEN,
    {
        REVELATION_TOTAL_LEN
    }

    /// Read a layout from a public-input slice of exactly the declared
    /// length; a slice of any other length is a caller error the layout
    /// refuses.
    pub fn from_slice(arr: &[u64]) -> (r: RevelationPublicInputs)
        requires
            arr@.len() == REVELATION_TOTAL_LEN,
        ensures
            r.inputs@ == arr@,
            r.wf(),
    {
        let r = Self::from_prefix(arr);
        proof {
            assert(arr@.take(REVELATION_TOTAL_LEN as int) =~= arr@);
        }
        r
    }

    /// Read a layout off the front of a longer word vector, as when a
    /// proof's public inputs carry the set digest after the layout.
    pub(crate) fn from_prefix(arr: &[u64]) -> (r: RevelationPublicInputs)
        requires
            arr@.len() >= REVELATION_TOTAL_LEN,
        ensures
            r.inputs@ == arr@.take(REVELATION_TOTAL_LEN as int),
            r.wf(),
    {
        let mut inputs: Vec<u64> = Vec::new();
        let mut i: usize = 0;
        while i < REVELATION_TOTAL_LEN
            invariant
                i <= REVELATION_TOTAL_LEN,
                arr@.len() >= REVELATION_TOTAL_LEN,
                inputs@.len() == i,
                forall|j: int| 0 <= j < i ==> inputs@[j] == arr@[j],
            decreases REVELATION_TOTAL_LEN - i,
        {
            inputs.push(arr[i]);
            i = i + 1;
        }
        proof {
            assert(inputs@ =~= arr@.take(REVELATION_TOTAL_LEN as int));
        }
        RevelationPublicInputs { inputs }
    }

    /// The latest aggregated block number word.
    pub fn block_number_raw(&self) -> (r: Vec<u64>)
        requires
            self.wf(),
        ensures
            r@ == self.inputs@.subrange(0, 1),
    {
        slice_range(&self.inputs, 0, 1)
    }

    /// The aggregated range word.
    pub fn range_raw(&self) -> (r: Vec<u64>)
        requires
            self.wf(),
        ensures
            r@ == self.inputs@.subrange(1, 2),
    {
        slice_range(&self.inputs, 1, 2)
    }

    /// The requested lower bound word.
    pub fn min_block_number_raw(&self) -> (r: Vec<u64>)
        requires
            self.wf(),
        ensures
            r@ == self.inputs@.subrange(2, 3),
    {
        slice_range(&self.inputs, 2, 3)
    }

    /// The requested upper bound word.
    pub fn max_block_number_raw(&self) -> (r: Vec<u64>)
        requires
            self.wf(),
        ensures
            r@ == self.inputs@.subrange(3, 4),
    {
        slice_range(&self.inputs, 3, 4)
    }

    /// The smart-contract address words.
    pub fn smart_contract_address_raw(&self) -> (r: Vec<u64>)
        requires
            self.wf(),
        ensures
            r@ == self.inputs@.subrange(4, 9),
    {
        slice_range(&self.inputs, 4, 9)
    }

    /// The owner address words.
    pub fn user_address_raw(&self) -> (r: Vec<u64>)
        requires
            self.wf(),
        ensures
            r@ == self.inputs@.subrange(9, 14),
    {
        slice_range(&self.inputs, 9, 14)
    }

    /// The mapping-slot word.
    pub fn mapping_slot_raw(&self) -> (r: Vec<u64>)
        requires
            self.wf(),
        ensures
            r@ == self.inputs@.subrange(14, 15),
    {
        slice_range(&self.inputs, 14, 15)
    }

    /// The storage-slot-length word.
    pub fn mapping_slot_length_raw(&self) -> (r: Vec<u64>)
        requires
            self.wf(),
        ensures
            r@ == self.inputs@.subrange(15, 16),
    {
        slice_range(&self.inputs, 15, 16)
    }

    /// The result-entry words.
    pub fn result_entries_raw(&self) -> (r: Vec<u64>)
        requires
            self.wf(),
        ensures
            r@ == self.inputs@.subrange(16, 21),
    {
        slice_range(&self.inputs, 16, 21)
    }

    /// The block-header hash words of the chain tip.
    pub fn block_header_raw(&self) -> (r: Vec<u64>)
        requires
            self.wf(),
        ensures
            r@ == self.inputs@.subrange(21, 29),
    {
        slice_range(&self.inputs, 21, 29)
    }

    /// The packed rewards-rate words.
    pub fn query_rewards_rate_raw(&self) -> (r: Vec<u64>)
        requires
            self.wf(),
        ensures
            r@ == self.inputs@.subrange(29, 37),
    {
        slice_range(&self.inputs, 29, 37)
    }

    /// The packed aggregated-result words.
    pub fn query_results_raw(&self) -> (r: Vec<u64>)
        requires
            self.wf(),
        ensures
            r@ == self.inputs@.subrange(37, 45),
    {
        slice_range(&self.inputs, 37, 45)
    }
}

/// The smaller of two words.
pub open spec fn min64(a: u64, b: u64) -> u64 {
    if a <= b {
        a
    } else {
        b
    }
}

/// The larger of two words.
pub open spec fn max64(a: u64, b: u64) -> u64 {
    if a >= b {
        a
    } else {
        b
    }
}

/// The layout a passing revelation step exposes over a database proof's
/// words `db` and an aggregation proof's words `agg`: the proved block and
/// range, the raw requested bounds, the identity fields, zeroed entry
/// slots, the chain tip's header, and the aggregated rate and result.
pub open spec fn revelation_output(
    c: RevelationCircuit,
    db: Seq<u64>,
    agg: Seq<u64>,
    pi: Seq<u64>,
) -> bool {
    &&& pi.len() == REVELATION_TOTAL_LEN
    &&& pi[0] == agg[0]
    &&& pi[1] == agg[1]
    &&& pi[2] == c.query_min_block_number
    &&& pi[3] == c.query_max_block_number
    &&& pi.subrange(4, 9) == agg.subrange(6, 11)
    &&& pi.subrange(9, 14) == agg.subrange(11, 16)
    &&& pi[14] == agg[16]
    &&& pi[15] == agg[17]
    &&& (forall|j: int| 16 <= j < 21 ==> pi[j] == 0u64)
    &&& pi.subrange(21, 29) == db.subrange(10, 18)
    &&& pi.subrange(29, 37) == agg.subrange(26, 34)
    &&& pi.subrange(37, 45) == agg.subrange(18, 26)
}

/// Witness data of the ERC20 revelation circuit: the query's requested
/// block bounds.
#[derive(Clone, Debug)]
pub struct RevelationCircuit {
    pub query_min_block_number: u64,
    pub query_max_block_number: u64,
}

/// The checks the revelation step enforces between a database proof's
/// words `db` and an aggregation proof's words `agg`, for the empty root of
/// `depth`: shared root, database grown from the empty tree, and both
/// clamped bounds met.
pub open spec fn revelation_checks(
    c: RevelationCircuit,
    db: Seq<u64>,
    agg: Seq<u64>,
    depth: nat,
) -> bool {
    let b0 = db[8];
    let bi = db[9];
    let bq = agg[0];
    let rq = agg[1];
    &&& agg.subrange(2, 6) == db.subrange(4, 8)
    &&& db.subrange(0, 4) == empty_merkle_root_of(depth)
    &&& rq <= bq + 1
    &&& bq + 1 - rq == max64(b0, c.query_min_block_number)
    &&& bq == min64(bi, c.query_max_block_number)
}

impl RevelationCircuit {
    /// Bind a database proof to an aggregation proof.  The enforced bounds
    /// are the clamp of the requested ones against what the database
    /// covers: the lower bound is the larger of the requested minimum and
    /// the database's first block, the upper bound the smaller of the
    /// requested maximum and the database's latest block, and the
    /// aggregation proof must cover exactly that range.
    pub fn build(
        &self,
        db_proof: &BlockDbPublicInputs,
        root_proof: &BlockPublicInputs,
        max_depth: usize,
    ) -> (r: Result<RevelationPublicInputs, ProofError>)
        requires
            db_proof.wf(),
            root_proof.wf(),
        ensures
            r is Ok <==> revelation_checks(*self, db_proof.inputs@, root_proof.inputs@, max_depth as nat),
            r is Ok ==> r->Ok_0.wf()
                && revelation_output(*self, db_proof.inputs@, root_proof.inputs@, r->Ok_0.inputs@),
    {
        let agg_root = slice_range(&root_proof.inputs, 2, 6);
        let db_root = slice_range(&db_proof.inputs, 4, 8);
        if !word_vecs_equal(&agg_root, &db_root) {
            return Err(ProofError::MismatchedRoots);
        }
        let empty_root = empty_merkle_root(max_depth);
        let db_init = slice_range(&db_proof.inputs, 0, 4);
        let mut empty_vec: Vec<u64> = Vec::new();
        empty_vec.push(empty_root[0]);
        empty_vec.push(empty_root[1]);
        empty_vec.push(empty_root[2]);
        empty_vec.push(empty_root[3]);
        proof {
            assert(empty_vec@ =~= empty_root@);
        }
        if !word_vecs_equal(&db_init, &empty_vec) {
            return Err(ProofError::BadInitialRoot);
        }
        let b0: u64 = db_proof.inputs[8];
        let bi: u64 = db_proof.inputs[9];
        let bq: u64 = root_proof.inputs[0];
        let rq: u64 = root_proof.inputs[1];
        let enforced_min: u64 = if self.query_min_block_number < b0 {
            b0
        } else {
            self.query_min_block_number
        };
        if rq > bq {
            // A range one longer than the block number reaches block 0
            // exactly; anything longer covers no block at all.
            if rq - bq != 1 || enforced_min != 0 {
                return Err(ProofError::BoundsMismatch);
            }
        } else {
            if bq - rq > u64::MAX - 1 || bq - rq + 1 != enforced_min {
                return Err(ProofError::BoundsMismatch);
            }
        }
        let enforced_max: u64 = if bi < self.query_max_block_number {
            bi
        } else {
            self.query_max_block_number
        };
        if bq != enforced_max {
            return Err(ProofError::BoundsMismatch);
        }
        let mut inputs: Vec<u64> = Vec::new();
        inputs.push(bq);
        inputs.push(rq);
        inputs.push(self.query_min_block_number);
        inputs.push(self.query_max_block_number);
        let mut i: usize = 6;
        while i < 18
            invariant
                6 <= i <= 18,
                root_proof.wf(),
                inputs@.len() == 4 + (i - 6),
                inputs@[0] == root_proof.inputs@[0],
                inputs@[1] == root_proof.inputs@[1],
                inputs@[2] == self.query_min_block_number,
                inputs@[3] == self.query_max_block_number,
                forall|j: int| 0 <= j < i - 6 ==> #[trigger] inputs@[4 + j]
                    == root_proof.inputs@[6 + j],
            decreases 18 - i,
        {
            inputs.push(root_proof.inputs[i]);
            i = i + 1;
        }
        let mut z: usize = 0;
        while z < RESULT_ENTRIES
            invariant
                z <= RESULT_ENTRIES,
                inputs@.len() == 16 + z,
                inputs@[0] == root_proof.inputs@[0],
                inputs@[1] == root_proof.inputs@[1],
                inputs@[2] == self.query_min_block_number,
                inputs@[3] == self.query_max_block_number,
                forall|j: int| 0 <= j < 12 ==> #[trigger] inputs@[4 + j]
                    == root_proof.inputs@[6 + j],
                forall|j: int| 0 <= j < z ==> #[trigger] inputs@[16 + j] == 0u64,
            decreases RESULT_ENTRIES - z,
        {
            inputs.push(0u64);
            z = z + 1;
        }
        let mut h: usize = 10;
        while h < 18
            invariant
                10 <= h <= 18,
                db_proof.wf(),
                inputs@.len() == 21 + (h - 10),
                inputs@[0] == root_proof.inputs@[0],
                inputs@[1] == root_proof.inputs@[1],
                inputs@[2] == self.query_min_block_number,
                inputs@[3] == self.query_max_block_number,
                forall|j: int| 0 <= j < 12 ==> #[trigger] inputs@[4 + j]
                    == root_proof.inputs@[6 + j],
                forall|j: int| 0 <= j < 5 ==> #[trigger] inputs@[16 + j] == 0u64,
                forall|j: int| 0 <= j < h - 10 ==> #[trigger] inputs@[21 + j]
                    == db_proof.inputs@[10 + j],
            decreases 18 - h,
        {
            inputs.push(db_proof.inputs[h]);
            h = h + 1;
        }
        let mut w: usize = 26;
        while w < 34
            invariant
                26 <= w <= 34,
                root_proof.wf(),
                inputs@.len() == 29 + (w - 26),
                inputs@[0] == root_proof.inputs@[0],
                inputs@[1] == root_proof.inputs@[1],
                inputs@[2] == self.query_min_block_number,
                inputs@[3] == self.query_max_block_number,
                forall|j: int| 0 <= j < 12 ==> #[trigger] inputs@[4 + j]
                    == root_proof.inputs@[6 + j],
                forall|j: int| 0 <= j < 5 ==> #[trigger] inputs@[16 + j] == 0u64,
                forall|j: int| 0 <= j < 8 ==> #[trigger] inputs@[21 + j]
                    == db_proof.inputs@[10 + j],
                forall|j: int| 0 <= j < w - 26 ==> #[trigger] inputs@[29 + j]
                    == root_proof.inputs@[26 + j],
            decreases 34 - w,
        {
            inputs.push(root_proof.inputs[w]);
            w = w + 1;
        }
        let mut v: usize = 18;
        while v < 26
            invariant
                18 <= v <= 26,
                root_proof.wf(),
                inputs@.len() == 37 + (v - 18),
                inputs@[0] == root_proof.inputs@[0],
                inputs@[1] == root_proof.inputs@[1],
                inputs@[2] == self.query_min_block_number,
                inputs@[3] == self.query_max_block_number,
                forall|j: int| 0 <= j < 12 ==> #[trigger] inputs@[4 + j]
                    == root_proof.inputs@[6 + j],
                forall|j: int| 0 <= j < 5 ==> #[trigger] inputs@[16 + j] == 0u64,
                forall|j: int| 0 <= j < 8 ==> #[trigger] inputs@[21 + j]
                    == db_proof.inputs@[10 + j],
                forall|j: int| 0 <= j < 8 ==> #[trigger] inputs@[29 + j]
                    == root_proof.inputs@[26 + j],
                forall|j: int| 0 <= j < v - 18 ==> #[trigger] inputs@[37 + j]
                    == root_proof.inputs@[18 + j],
            decreases 26 - v,
        {
            inputs.push(root_proof.inputs[v]);
            v = v + 1;
        }
        let out = RevelationPublicInputs { inputs };
        proof {
            assert forall|j: int| 0 <= j < 5
                implies out.inputs@.subrange(4, 9)[j] == root_proof.inputs@.subrange(6, 11)[j] by {
                assert(out.inputs@[4 + j] == root_proof.inputs@[6 + j]);
            }
            assert(out.inputs@.subrange(4, 9) =~= root_proof.inputs@.subrange(6, 11));
            assert forall|j: int| 0 <= j < 5
                implies out.inputs@.subrange(9, 14)[j] == root_proof.inputs@.subrange(11, 16)[j] by {
                assert(out.inputs@[4 + (5 + j)] == root_proof.inputs@[6 + (5 + j)]);
            }
            assert(out.inputs@.subrange(9, 14) =~= root_proof.inputs@.subrange(11, 16));
            assert(out.inputs@[14] == out.inputs@[4 + 10int] && root_proof.inputs@[16]
                == root_proof.inputs@[6 + 10int]);
            assert(out.inputs@[15] == out.inputs@[4 + 11int] && root_proof.inputs@[17]
                == root_proof.inputs@[6 + 11int]);
            assert forall|j: int| 0 <= j < 8
                implies out.inputs@.subrange(21, 29)[j] == db_proof.inputs@.subrange(10, 18)[j] by {
                assert(out.inputs@[21 + j] == db_proof.inputs@[10 + j]);
            }
            assert(out.inputs@.subrange(21, 29) =~= db_proof.inputs@.subrange(10, 18));
            assert forall|j: int| 0 <= j < 8
                implies out.inputs@.subrange(29, 37)[j] == root_proof.inputs@.subrange(26, 34)[j] by {
                assert(out.inputs@[29 + j] == root_proof.inputs@[26 + j]);
            }
            assert(out.inputs@.subrange(29, 37) =~= root_proof.inputs@.subrange(26, 34));
            assert forall|j: int| 0 <= j < 8
                implies out.inputs@.subrange(37, 45)[j] == root_proof.inputs@.subrange(18, 26)[j] by {
                assert(out.inputs@[37 + j] == root_proof.inputs@[18 + j]);
            }
            assert(out.inputs@.subrange(37, 45) =~= root_proof.inputs@.subrange(18, 26));
            assert forall|j: int| 16 <= j < 21 implies out.inputs@[j] == 0u64 by {
                assert(out.inputs@[16 + (j - 16)] == 0u64);
            }
            assert(root_proof.inputs@.subrange(2, 6) =~= agg_root@);
            assert(db_proof.inputs@.subrange(4, 8) =~= db_root@);
            assert(db_proof.inputs@.subrange(0, 4) =~= db_init@);
        }
        Ok(out)
    }
}

/// The enforced bounds of a passing revelation step clamp the request to
/// what the database covers: the lower bound is `max(B0, Qmin)` and the
/// upper bound is `min(B1, Qmax)` for a database covering `[B0, B1]` and a
/// query requesting `[Qmin, Qmax]`.
pub proof fn lemma_revelation_clamps_bounds(
    c: RevelationCircuit,
    db: Seq<u64>,
    agg: Seq<u64>,
    depth: nat,
)
    requires
        revelation_checks(c, db, agg, depth),
    ensures
        agg[0] + 1 - agg[1] == max64(db[8], c.query_min_block_number),
        agg[0] == min64(db[9], c.query_max_block_number),
{
}

/// Everything the ERC20 revelation circuit is built against: the set of
/// aggregation circuits it accepts, the set holding the database circuit,
/// and the one pinned database verifier key.
pub struct BuilderParams {
    pub query_circuits: RecursiveCircuits,
    pub block_db_circuits: RecursiveCircuits,
    pub block_db_verifier_data: [u64; 4],
}

impl BuilderParams {
    /// Bundle the revelation step's configuration.
    pub fn new(
        query_circuits: RecursiveCircuits,
        block_db_circuits: RecursiveCircuits,
        block_db_verifier_data: [u64; 4],
    ) -> (r: BuilderParams)
        ensures
            r.query_circuits == query_circuits,
            r.block_db_circuits == block_db_circuits,
            r.block_db_verifier_data == block_db_verifier_data,
    {
        BuilderParams { query_circuits, block_db_circuits, block_db_verifier_data }
    }
}

/// Input to revelation proof generation: the circuit witness and the two
/// proofs to bind.
pub struct RevelationRecursiveInput {
    pub logic_inputs: RevelationCircuit,
    pub query_block_proof: ProofWithVK,
    pub block_db_proof: ProofWithVK,
}

impl RevelationRecursiveInput {
    /// Assemble revelation inputs from serialized proofs; fails exactly
    /// when either encoding is malformed.
    pub fn new(
        logic_inputs: RevelationCircuit,
        query_block_proof: &Vec<u8>,
        block_db_proof: &Vec<u8>,
    ) -> (r: Result<RevelationRecursiveInput, ProofError>)
        ensures
            r is Ok <==> crate::bundle::valid_wire_bytes(query_block_proof@)
                && crate::bundle::valid_wire_bytes(block_db_proof@),
            r is Ok ==> r->Ok_0.logic_inputs == logic_inputs
                && r->Ok_0.query_block_proof.wire_words()
                    == crate::bundle::words_of_bytes(query_block_proof@)
                && r->Ok_0.block_db_proof.wire_words()
                    == crate::bundle::words_of_bytes(block_db_proof@),
            r is Err ==> r->Err_0 == ProofError::BadProofEncoding,
    {
        let q = ProofWithVK::deserialize(query_block_proof)?;
        let d = ProofWithVK::deserialize(block_db_proof)?;
        Ok(RevelationRecursiveInput {
            logic_inputs,
            query_block_proof: q,
            block_db_proof: d,
        })
    }
}

/// The compiled revelation circuit and its configuration.
pub struct Parameters {
    pub circuit: [u64; 4],
    pub params: BuilderParams,
    pub max_depth: usize,
}

impl Parameters {
    /// Build the revelation circuit against its configuration.
    pub fn build(params: BuilderParams, max_depth: usize) -> (r: Parameters)
        ensures
            r.params == params,
            r.max_depth == max_depth,
    {
        Parameters { circuit: derive_circuit_digest(6), params, max_depth }
    }

    /// Generate the terminal revelation proof.  The aggregation proof may
    /// come from any member of the query circuit set; the database proof
    /// must come from the one pinned database circuit — that asymmetry is a
    /// security boundary, not an optimization.
    pub fn generate_proof(&self, input: RevelationRecursiveInput) -> (r: Result<
        Vec<u8>,
        ProofError,
    >)
        ensures
            r is Ok <==> {
                &&& self.params.query_circuits.contains_digest(input.query_block_proof.vk@)
                &&& input.block_db_proof.vk@ == self.params.block_db_verifier_data@
                &&& input.query_block_proof.proof.public_inputs@.len() >= BLOCK_TOTAL_LEN
                &&& input.block_db_proof.proof.public_inputs@.len() >= BLOCK_DB_TOTAL_LEN
                &&& revelation_checks(
                    input.logic_inputs,
                    input.block_db_proof.proof.public_inputs@.take(BLOCK_DB_TOTAL_LEN as int),
                    input.query_block_proof.proof.public_inputs@.take(BLOCK_TOTAL_LEN as int),
                    self.max_depth as nat,
                )
            },
            r is Ok ==> crate::bundle::valid_wire_bytes(r->Ok_0@),
            r is Ok ==> crate::bundle::encoded_vk(r->Ok_0@) == self.circuit@,
            r is Ok ==> {
                let pi = crate::bundle::encoded_public_inputs(r->Ok_0@);
                &&& pi.len() == REVELATION_TOTAL_LEN + 5
                &&& revelation_output(
                    input.logic_inputs,
                    input.block_db_proof.proof.public_inputs@.take(BLOCK_DB_TOTAL_LEN as int),
                    input.query_block_proof.proof.public_inputs@.take(BLOCK_TOTAL_LEN as int),
                    pi.take(REVELATION_TOTAL_LEN as int),
                )
                &&& pi[REVELATION_TOTAL_LEN as int] == keccak_of(query_kind_tag())[0] as u64
                &&& pi.subrange(REVELATION_TOTAL_LEN as int + 1, REVELATION_TOTAL_LEN as int + 5)
                    == crate::circuit_set::set_digest_of(self.params.query_circuits.digests@)
            },
    {
        self.params.query_circuits.verify_proof_in_set(&input.query_block_proof)?;
        RecursiveCircuits::verify_proof_fixed_circuit(
            &input.block_db_proof,
            &self.params.block_db_verifier_data,
        )?;
        if input.query_block_proof.proof.public_inputs.len() < BLOCK_TOTAL_LEN {
            return Err(ProofError::BadPublicInputLength);
        }
        if input.block_db_proof.proof.public_inputs.len() < BLOCK_DB_TOTAL_LEN {
            return Err(ProofError::BadPublicInputLength);
        }
        let agg_pi = BlockPublicInputs::from_prefix(
            input.query_block_proof.proof.public_inputs.as_slice(),
        );
        let db_pi = BlockDbPublicInputs::from_prefix(
            input.block_db_proof.proof.public_inputs.as_slice(),
        );
        let pi = input.logic_inputs.build(&db_pi, &agg_pi, self.max_depth)?;
        let ghost built = pi.inputs@;
        let mut outputs = pi.inputs;
        let identifier = query_kind_identifier();
        outputs.push(identifier);
        let bundle = self.params.query_circuits.generate_proof(
            &self.circuit,
            &Vec::new(),
            outputs,
        )?;
        proof {
            crate::bundle::lemma_bundle_round_trip(bundle);
            crate::bundle::lemma_encoded_vk(bundle);
            crate::bundle::lemma_encoded_pis(bundle);
        }
        let out = bundle.serialize();
        proof {
            let enc = crate::bundle::encoded_public_inputs(out@);
            assert(enc == bundle.proof.public_inputs@);
            assert(enc.take(REVELATION_TOTAL_LEN as int) =~= built);
            assert(enc[REVELATION_TOTAL_LEN as int] == identifier);
            assert(enc.subrange(REVELATION_TOTAL_LEN as int + 1, REVELATION_TOTAL_LEN as int + 5)
                =~= crate::circuit_set::set_digest_of(self.params.query_circuits.digests@));
            assert(revelation_output(
                input.logic_inputs,
                input.block_db_proof.proof.public_inputs@.take(BLOCK_DB_TOTAL_LEN as int),
                input.query_block_proof.proof.public_inputs@.take(BLOCK_TOTAL_LEN as int),
                enc.take(REVELATION_TOTAL_LEN as int),
            ));
        }
        Ok(out)
    }
}

/// The byte sequence naming this query kind.
pub open spec fn query_kind_tag() -> Seq<u8> {
    seq![0x51u8, 0x75u8, 0x65u8, 0x72u8, 0x79u8, 0x45u8, 0x52u8, 0x43u8, 0x32u8, 0x30u8]
}

/// The extra public input identifying the query kind: the first byte of the
/// hash of the kind's name.
pub fn query_kind_identifier() -> (r: u64)
    ensures
        r == keccak_of(query_kind_tag())[0] as u64,
{
    let mut tag: Vec<u8> = Vec::new();
    tag.push(0x51u8);
    tag.push(0x75u8);
    tag.push(0x65u8);
    tag.push(0x72u8);
    tag.push(0x79u8);
    tag.push(0x45u8);
    tag.push(0x52u8);
    tag.push(0x43u8);
    tag.push(0x32u8);
    tag.push(0x30u8);
    proof {
        assert(tag@ =~= query_kind_tag());
    }
    let h = keccak256_bytes(tag.as_slice());
    h[0] as u64
}

} // verus!
