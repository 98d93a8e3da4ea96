//! Block-range aggregation circuits of the ERC20 query.
//!
//! A full node merges two children whose proved block ranges are adjacent:
//! the new range is the sum of the two, the new block number is the right
//! child's, the new result is the checked sum of the children's results,
//! and the new root hashes the two child roots in order.  A partial node
//! merges one proved child with one unproved sibling hash and passes every
//! other field through.

use vstd::prelude::*;
use vstd::arithmetic::power2::*;
use vstd::arithmetic::div_mod::*;

use crate::bundle::ProofWithVK;
use crate::circuit_set::RecursiveCircuits;
use crate::erc20_storage::{derive_circuit_digest, slice_range};
use crate::errors::ProofError;
use crate::hash::{node_hash, node_hash_of};
use crate::pack::{u256_from_words, u256_to_words, words_in_u32_range, words_val};

verus! {

/// Total word length of the block family's public inputs.
pub const BLOCK_TOTAL_LEN: usize = 34;

/// Number of circuits in the block family's set.
pub const BLOCK_CIRCUIT_SET_SIZE: usize = 3;

/// The named fields of the block family's public-input layout, in wire
/// order.
#[derive(Clone, Copy, Debug)]
pub enum Inputs {
    /// B - block number of the latest block aggregated.
    BlockNumber,
    /// R - aggregated range.
    Range,
    /// C - Merkle hash of the subtree, or the leaf's hash.
    Root,
    /// A - smart-contract address, packed.
    SmartContractAddress,
    /// X - owner's address, packed.
    UserAddress,
    /// M - mapping slot.
    MappingSlot,
    /// S - storage slot length.
    StorageSlotLength,
    /// V - aggregated result of the query.
    QueryResult,
    /// R - rewards rate of the query.
    RewardsRate,
}

impl Inputs {
    /// Total length of the layout: every field's lengths summed.
    pub fn total_len() -> (r: usize)
        ensures
            r == BLOCK_TOTAL_LEN,
    {
        BLOCK_TOTAL_LEN
    }

    /// Word length of this field.
    pub fn len(&self) -> (r: usize)
        ensures
            r == self.spec_len(),
    {
        match self {
            Inputs::BlockNumber => 1,
            Inputs::Range => 1,
            Inputs::Root => 4,
            Inputs::SmartContractAddress => 5,
            Inputs::UserAddress => 5,
            Inputs::MappingSlot => 1,
            Inputs::StorageSlotLength => 1,
            Inputs::QueryResult => 8,
            Inputs::RewardsRate => 8,
        }
    }

    /// Word length of this field.
    pub open spec fn spec_len(self) -> usize {
        match self {
            Inputs::BlockNumber => 1,
            Inputs::Range => 1,
            Inputs::Root => 4,
            Inputs::SmartContractAddress => 5,
            Inputs::UserAddress => 5,
            Inputs::MappingSlot => 1,
            Inputs::StorageSlotLength => 1,
            Inputs::QueryResult => 8,
            Inputs::RewardsRate => 8,
        }
    }

    /// Cumulative offset of this field in the layout.
    pub open spec fn spec_offset(self) -> usize {
        match self {
            Inputs::BlockNumber => 0,
            Inputs::Range => 1,
            Inputs::Root => 2,
            Inputs::SmartContractAddress => 6,
            Inputs::UserAddress => 11,
            Inputs::MappingSlot => 16,
            Inputs::StorageSlotLength => 17,
            Inputs::QueryResult => 18,
            Inputs::RewardsRate => 26,
        }
    }

    /// The half-open word range `[offset, offset + len)` of this field.
    pub fn range(&self) -> (r: (usize, usize))
        ensures
            r.0 == self.spec_offset(),
            r.1 == self.spec_offset() + self.spec_len(),
    {
        match self {
            Inputs::BlockNumber => (0, 1),
            Inputs::Range => (1, 2),
            Inputs::Root => (2, 6),
            Inputs::SmartContractAddress => (6, 11),
            Inputs::UserAddress => (11, 16),
            Inputs::MappingSlot => (16, 17),
            Inputs::StorageSlotLength => (17, 18),
            Inputs::QueryResult => (18, 26),
            Inputs::RewardsRate => (26, 34),
        }
    }
}

/// The public inputs of a block-family proof.
#[derive(Clone, Debug)]
pub struct BlockPublicInputs {
    pub inputs: Vec<u64>,
}

impl BlockPublicInputs {
    /// The layout has its declared length.
    pub open spec fn wf(self) -> bool {
        self.inputs@.len() == BLOCK_TOTAL_LEN
    }

    /// Total length of the layout.
    pub fn total_len() -> (r: usize)
        ensures
            r == BLOCK_TOTAL_LEN,
    {
        BLOCK_TOTAL_LEN
    }

    /// Read a layout from a public-input slice of exactly the declared
    /// length; a slice of any other length is a caller error the layout
    /// refuses.
    pub fn from_slice(arr: &[u64]) -> (r: BlockPublicInputs)
        requires
            arr@.len() == BLOCK_TOTAL_LEN,
        ensures
            r.inputs@ == arr@,
            r.wf(),
    {
        let r = Self::from_prefix(arr);
        proof {
            assert(arr@.take(BLOCK_TOTAL_LEN as int) =~= arr@);
        }
        r
    }

    /// Read a layout off the front of a longer word vector, as when a
    /// proof's public inputs carry the set digest after the layout.
    pub(crate) fn from_prefix(arr: &[u64]) -> (r: BlockPublicInputs)
        requires
            arr@.len() >= BLOCK_TOTAL_LEN,
        ensures
            r.inputs@ == arr@.take(BLOCK_TOTAL_LEN as int),
            r.wf(),
    {
        let mut inputs: Vec<u64> = Vec::new();
        let mut i: usize = 0;
        while i < BLOCK_TOTAL_LEN
            invariant
                i <= BLOCK_TOTAL_LEN,
                arr@.len() >= BLOCK_TOTAL_LEN,
                inputs@.len() == i,
                forall|j: int| 0 <= j < i ==> inputs@[j] == arr@[j],
            decreases BLOCK_TOTAL_LEN - i,
        {
            inputs.push(arr[i]);
            i = i + 1;
        }
        proof {
            assert(inputs@ =~= arr@.take(BLOCK_TOTAL_LEN as int));
        }
        BlockPublicInputs { inputs }
    }

    /// Assemble a layout from its parts.
    pub fn from_parts(
        block_number: u64,
        range: u64,
        root: &[u64; 4],
        smart_contract_address: &[u64; 5],
        user_address: &[u64; 5],
        mapping_slot: u64,
        storage_slot_length: u64,
        query_results: &[u64; 8],
        rewards_rate: &[u64; 8],
    ) -> (r: BlockPublicInputs)
        ensures
            r.wf(),
            r.inputs@[0] == block_number,
            r.inputs@[1] == range,
            r.inputs@.subrange(2, 6) == root@,
            r.inputs@.subrange(6, 11) == smart_contract_address@,
            r.inputs@.subrange(11, 16) == user_address@,
            r.inputs@[16] == mapping_slot,
            r.inputs@[17] == storage_slot_length,
            r.inputs@.subrange(18, 26) == query_results@,
            r.inputs@.subrange(26, 34) == rewards_rate@,
    {
        let mut inputs: Vec<u64> = Vec::new();
        inputs.push(block_number);
        inputs.push(range);
        inputs.push(root[0]);
        inputs.push(root[1]);
        inputs.push(root[2]);
        inputs.push(root[3]);
        inputs.push(smart_contract_address[0]);
        inputs.push(smart_contract_address[1]);
        inputs.push(smart_contract_address[2]);
        inputs.push(smart_contract_address[3]);
        inputs.push(smart_contract_address[4]);
        inputs.push(user_address[0]);
        inputs.push(user_address[1]);
        inputs.push(user_address[2]);
        inputs.push(user_address[3]);
        inputs.push(user_address[4]);
        inputs.push(mapping_slot);
        inputs.push(storage_slot_length);
        let mut i: usize = 0;
        while i < 8
            invariant
                i <= 8,
                inputs@.len() == 18 + i,
                inputs@[0] == block_number,
                inputs@[1] == range,
                forall|j: int| 0 <= j < 4 ==> inputs@[2 + j] == root@[j],
                forall|j: int| 0 <= j < 5 ==> inputs@[6 + j] == smart_contract_address@[j],
                forall|j: int| 0 <= j < 5 ==> inputs@[11 + j] == user_address@[j],
                inputs@[16] == mapping_slot,
                inputs@[17] == storage_slot_length,
                forall|j: int| 0 <= j < i ==> inputs@[18 + j] == query_results@[j],
            decreases 8 - i,
        {
            inputs.push(query_results[i]);
            i = i + 1;
        }
        let mut k: usize = 0;
        while k < 8
            invariant
                k <= 8,
                inputs@.len() == 26 + k,
                inputs@[0] == block_number,
                inputs@[1] == range,
                forall|j: int| 0 <= j < 4 ==> inputs@[2 + j] == root@[j],
                forall|j: int| 0 <= j < 5 ==> inputs@[6 + j] == smart_contract_address@[j],
                forall|j: int| 0 <= j < 5 ==> inputs@[11 + j] == user_address@[j],
                inputs@[16] == mapping_slot,
                inputs@[17] == storage_slot_length,
                forall|j: int| 0 <= j < 8 ==> inputs@[18 + j] == query_results@[j],
                forall|j: int| 0 <= j < k ==> inputs@[26 + j] == rewards_rate@[j],
            decreases 8 - k,
        {
            inputs.push(rewards_rate[k]);
            k = k + 1;
        }
        let out = BlockPublicInputs { inputs };
        proof {
            assert(out.inputs@.subrange(2, 6) =~= root@);
            assert(out.inputs@.subrange(6, 11) =~= smart_contract_address@);
            assert(out.inputs@.subrange(11, 16) =~= user_address@);
            assert(out.inputs@.subrange(18, 26) =~= query_results@);
            assert(out.inputs@.subrange(26, 34) =~= rewards_rate@);
        }
        out
    }

    /// The latest aggregated block number.
    pub fn block_number(&self) -> (r: u64)
        requires
            self.wf(),
        ensures
            r == self.inputs@[0],
    {
        self.inputs[0]
    }

    /// The aggregated range length.
    pub fn range(&self) -> (r: u64)
        requires
            self.wf(),
        ensures
            r == self.inputs@[1],
    {
        self.inputs[1]
    }

    /// The block-number word.
    pub fn block_number_raw(&self) -> (r: Vec<u64>)
        requires
            self.wf(),
        ensures
            r@ == self.inputs@.subrange(0, 1),
    {
        slice_range(&self.inputs, 0, 1)
    }

    /// The range word.
    pub fn range_raw(&self) -> (r: Vec<u64>)
        requires
            self.wf(),
        ensures
            r@ == self.inputs@.subrange(1, 2),
    {
        slice_range(&self.inputs, 1, 2)
    }

    /// The root commitment words.
    pub fn root_raw(&self) -> (r: Vec<u64>)
        requires
            self.wf(),
        ensures
            r@ == self.inputs@.subrange(2, 6),
    {
        slice_range(&self.inputs, 2, 6)
    }

    /// The smart-contract address words.
    pub fn smart_contract_address_raw(&self) -> (r: Vec<u64>)
        requires
            self.wf(),
        ensures
            r@ == self.inputs@.subrange(6, 11),
    {
        slice_range(&self.inputs, 6, 11)
    }

    /// The owner address words.
    pub fn user_address_raw(&self) -> (r: Vec<u64>)
        requires
            self.wf(),
        ensures
            r@ == self.inputs@.subrange(11, 16),
    {
        slice_range(&self.inputs, 11, 16)
    }

    /// The mapping-slot word.
    pub fn mapping_slot_raw(&self) -> (r: Vec<u64>)
        requires
            self.wf(),
        ensures
            r@ == self.inputs@.subrange(16, 17),
    {
        slice_range(&self.inputs, 16, 17)
    }

    /// The storage-slot-length word.
    pub fn storage_slot_length_raw(&self) -> (r: Vec<u64>)
        requires
            self.wf(),
        ensures
            r@ == self.inputs@.subrange(17, 18),
    {
        slice_range(&self.inputs, 17, 18)
    }

    /// The packed query-result words.
    pub fn query_results_raw(&self) -> (r: Vec<u64>)
        requires
            self.wf(),
        ensures
            r@ == self.inputs@.subrange(18, 26),
    {
        slice_range(&self.inputs, 18, 26)
    }

    /// The packed rewards-rate words.
    pub fn rewards_rate_raw(&self) -> (r: Vec<u64>)
        requires
            self.wf(),
        ensures
            r@ == self.inputs@.subrange(26, 34),
    {
        slice_range(&self.inputs, 26, 34)
    }
}

/// Wires of the full-node circuit; the circuit takes no witness of its own.
pub struct FullNodeWires {}

/// The full-node aggregation circuit.
#[derive(Clone, Debug)]
pub struct FullNodeCircuit {}

/// The two children agree on every shared identity field: contract address,
/// owner address, both slot identifiers and the rewards rate.
pub open spec fn identity_fields_match(l: Seq<u64>, r: Seq<u64>) -> bool {
    l.subrange(6, 18) == r.subrange(6, 18) && l.subrange(26, 34) == r.subrange(26, 34)
}

/// The two children's ranges are adjacent: the left child's latest block is
/// exactly where the right child's range begins.  The equation is over the
/// integers, so a right child whose range reaches past its own block number
/// matches no left child at all.
pub open spec fn ranges_adjacent(l: Seq<u64>, r: Seq<u64>) -> bool {
    l[0] == r[0] - r[1]
}

/// The layout a full-node merge exposes over its children's public inputs:
/// the right child's block number, the summed range, the ordered hash of
/// the two roots, the left child's identity fields, and the checked result
/// sum.
pub open spec fn full_node_output(l: Seq<u64>, r: Seq<u64>, pi: Seq<u64>) -> bool {
    &&& pi.len() == BLOCK_TOTAL_LEN
    &&& pi[0] == r[0]
    &&& pi[1] == l[1] + r[1]
    &&& pi.subrange(2, 6) == node_hash_of(l.subrange(2, 6) + r.subrange(2, 6))
    &&& pi.subrange(6, 18) == l.subrange(6, 18)
    &&& words_in_u32_range(pi.subrange(18, 26))
    &&& words_val(pi.subrange(18, 26)) == words_val(l.subrange(18, 26))
        + words_val(r.subrange(18, 26))
    &&& pi.subrange(26, 34) == l.subrange(26, 34)
}

/// The layout a partial node exposes over its proved child: the ordered
/// hash of sibling and child root, everything else passed through.
pub open spec fn partial_node_output(
    child: Seq<u64>,
    sibling: Seq<u64>,
    sibling_is_left: bool,
    pi: Seq<u64>,
) -> bool {
    &&& pi.len() == BLOCK_TOTAL_LEN
    &&& pi[0] == child[0]
    &&& pi[1] == child[1]
    &&& pi.subrange(2, 6) == node_hash_of(
        if sibling_is_left {
            sibling + child.subrange(2, 6)
        } else {
            child.subrange(2, 6) + sibling
        },
    )
    &&& pi.subrange(6, 34) == child.subrange(6, 34)
}

/// Everything a full-node merge demands of its children's public inputs:
/// matching identity fields, adjacent ranges, well-formed packed results,
/// a result sum that fits 256 bits and a range sum that fits its word.
pub open spec fn full_node_success(l: Seq<u64>, r: Seq<u64>) -> bool {
    &&& identity_fields_match(l, r)
    &&& ranges_adjacent(l, r)
    &&& words_in_u32_range(l.subrange(18, 26))
    &&& words_in_u32_range(r.subrange(18, 26))
    &&& words_val(l.subrange(18, 26)) + words_val(r.subrange(18, 26)) < pow2(256)
    &&& l[1] + r[1] <= u64::MAX
}

impl FullNodeCircuit {
    /// Merge two adjacent children.  Fails on mismatched identity fields,
    /// non-adjacent ranges, malformed packed results, a result sum that
    /// would overflow 256 bits, or a range sum that would overflow its
    /// word; otherwise the output is exactly the merged layout.
    pub fn build(left: &BlockPublicInputs, right: &BlockPublicInputs) -> (r: Result<
        BlockPublicInputs,
        ProofError,
    >)
        requires
            left.wf(),
            right.wf(),
        ensures
            r is Ok <==> full_node_success(left.inputs@, right.inputs@),
            !identity_fields_match(left.inputs@, right.inputs@)
                ==> r == Err::<BlockPublicInputs, ProofError>(ProofError::MismatchedSiblingFields),
            identity_fields_match(left.inputs@, right.inputs@)
                && !ranges_adjacent(left.inputs@, right.inputs@)
                ==> r == Err::<BlockPublicInputs, ProofError>(ProofError::RangesNotAdjacent),
            (identity_fields_match(left.inputs@, right.inputs@)
                && ranges_adjacent(left.inputs@, right.inputs@)
                && words_in_u32_range(left.inputs@.subrange(18, 26))
                && words_in_u32_range(right.inputs@.subrange(18, 26))
                && words_val(left.inputs@.subrange(18, 26))
                    + words_val(right.inputs@.subrange(18, 26)) >= pow2(256))
                ==> r == Err::<BlockPublicInputs, ProofError>(ProofError::ResultOverflow),
            r is Ok ==> r->Ok_0.wf()
                && full_node_output(left.inputs@, right.inputs@, r->Ok_0.inputs@),
    {
        let shared_left = slice_range(&left.inputs, 6, 18);
        let shared_right = slice_range(&right.inputs, 6, 18);
        let rewards_left = slice_range(&left.inputs, 26, 34);
        let rewards_right = slice_range(&right.inputs, 26, 34);
        if !word_vecs_equal(&shared_left, &shared_right)
            || !word_vecs_equal(&rewards_left, &rewards_right) {
            return Err(ProofError::MismatchedSiblingFields);
        }
        let right_block: u64 = right.inputs[0];
        let right_range: u64 = right.inputs[1];
        if right_range > right_block || left.inputs[0] != right_block - right_range {
            return Err(ProofError::RangesNotAdjacent);
        }
        let left_results = slice_range(&left.inputs, 18, 26);
        let right_results = slice_range(&right.inputs, 18, 26);
        let lv = match u256_from_words(left_results.as_slice()) {
            Some(v) => v,
            None => {
                return Err(ProofError::BadPublicInputLength);
            }
        };
        let rv = match u256_from_words(right_results.as_slice()) {
            Some(v) => v,
            None => {
                return Err(ProofError::BadPublicInputLength);
            }
        };
        let (sum, carry) = lv.add_u256(&rv);
        if carry {
            return Err(ProofError::ResultOverflow);
        }
        let left_range: u64 = left.inputs[1];
        if left_range > u64::MAX - right_range {
            return Err(ProofError::ResultOverflow);
        }
        let new_range: u64 = left_range + right_range;

        let left_root = slice_range(&left.inputs, 2, 6);
        let right_root = slice_range(&right.inputs, 2, 6);
        let mut preimage = left_root;
        preimage.push(right_root[0]);
        preimage.push(right_root[1]);
        preimage.push(right_root[2]);
        preimage.push(right_root[3]);
        proof {
            assert(preimage@ =~= left.inputs@.subrange(2, 6) + right.inputs@.subrange(2, 6));
        }
        let root_words = node_hash(&preimage);
        let root: [u64; 4] = [root_words[0], root_words[1], root_words[2], root_words[3]];
        let sum_words_vec = u256_to_words(&sum);
        let sum_words: [u64; 8] = [
            sum_words_vec[0],
            sum_words_vec[1],
            sum_words_vec[2],
            sum_words_vec[3],
            sum_words_vec[4],
            sum_words_vec[5],
            sum_words_vec[6],
            sum_words_vec[7],
        ];
        let smc: [u64; 5] = [
            left.inputs[6],
            left.inputs[7],
            left.inputs[8],
            left.inputs[9],
            left.inputs[10],
        ];
        let user: [u64; 5] = [
            left.inputs[11],
            left.inputs[12],
            left.inputs[13],
            left.inputs[14],
            left.inputs[15],
        ];
        let rewards: [u64; 8] = [
            left.inputs[26],
            left.inputs[27],
            left.inputs[28],
            left.inputs[29],
            left.inputs[30],
            left.inputs[31],
            left.inputs[32],
            left.inputs[33],
        ];
        let out = BlockPublicInputs::from_parts(
            right_block,
            new_range,
            &root,
            &smc,
            &user,
            left.inputs[16],
            left.inputs[17],
            &sum_words,
            &rewards,
        );
        proof {
            lemma_pow2_pos(256);
            crate::u256::lemma_val_bound(lv);
            crate::u256::lemma_val_bound(rv);
            assert(root@ =~= root_words@);
            assert(sum_words@ =~= sum_words_vec@);
            assert(out.inputs@.subrange(6, 18) =~= left.inputs@.subrange(6, 18));
            assert(out.inputs@.subrange(18, 26) =~= sum_words_vec@);
            assert(out.inputs@.subrange(26, 34) =~= left.inputs@.subrange(26, 34));
        }
        Ok(out)
    }
}

/// Equality of two word vectors.
pub fn word_vecs_equal(a: &Vec<u64>, b: &Vec<u64>) -> (r: bool)
    ensures
        r <==> a@ == b@,
{
    if a.len() != b.len() {
        proof {
            if a@ == b@ {
                assert(false);
            }
        }
        return false;
    }
    let mut i: usize = 0;
    while i < a.len()
        invariant
            i <= a@.len(),
            a@.len() == b@.len(),
            forall|j: int| 0 <= j < i ==> a@[j] == b@[j],
        decreases a@.len() - i,
    {
        if a[i] != b[i] {
            proof {
                if a@ == b@ {
                    assert(a@[i as int] == b@[i as int]);
                    assert(false);
                }
            }
            return false;
        }
        i = i + 1;
    }
    proof {
        assert(a@ =~= b@);
    }
    true
}

/// Witness data of a partial node: the unproved sibling's hash and which
/// side the sibling is on.
#[derive(Clone, Debug)]
pub struct PartialNodeCircuitInputs {
    pub sibling_hash: [u64; 4],
    pub sibling_is_left: bool,
}

impl PartialNodeCircuitInputs {
    /// Merge one proved child with an unproved sibling hash: the root
    /// hashes the two in the chosen order and every other field passes
    /// through from the proved child.
    pub fn build(&self, child: &BlockPublicInputs) -> (r: BlockPublicInputs)
        requires
            child.wf(),
        ensures
            r.wf(),
            partial_node_output(child.inputs@, self.sibling_hash@, self.sibling_is_left, r.inputs@),
    {
        let child_root = slice_range(&child.inputs, 2, 6);
        let mut preimage: Vec<u64> = Vec::new();
        if self.sibling_is_left {
            preimage.push(self.sibling_hash[0]);
            preimage.push(self.sibling_hash[1]);
            preimage.push(self.sibling_hash[2]);
            preimage.push(self.sibling_hash[3]);
            preimage.push(child_root[0]);
            preimage.push(child_root[1]);
            preimage.push(child_root[2]);
            preimage.push(child_root[3]);
            proof {
                assert(preimage@ =~= self.sibling_hash@ + child.inputs@.subrange(2, 6));
            }
        } else {
            preimage.push(child_root[0]);
            preimage.push(child_root[1]);
            preimage.push(child_root[2]);
            preimage.push(child_root[3]);
            preimage.push(self.sibling_hash[0]);
            preimage.push(self.sibling_hash[1]);
            preimage.push(self.sibling_hash[2]);
            preimage.push(self.sibling_hash[3]);
            proof {
                assert(preimage@ =~= child.inputs@.subrange(2, 6) + self.sibling_hash@);
            }
        }
        let root = node_hash(&preimage);
        let mut inputs: Vec<u64> = Vec::new();
        inputs.push(child.inputs[0]);
        inputs.push(child.inputs[1]);
        inputs.push(root[0]);
        inputs.push(root[1]);
        inputs.push(root[2]);
        inputs.push(root[3]);
        let mut i: usize = 6;
        while i < 34
            invariant
                6 <= i <= 34,
                child.wf(),
                inputs@.len() == i,
                inputs@[0] == child.inputs@[0],
                inputs@[1] == child.inputs@[1],
                forall|j: int| 0 <= j < 4 ==> inputs@[2 + j] == root@[j],
                forall|j: int| 6 <= j < i ==> inputs@[j] == child.inputs@[j],
            decreases 34 - i,
        {
            inputs.push(child.inputs[i]);
            i = i + 1;
        }
        let out = BlockPublicInputs { inputs };
        proof {
            assert(out.inputs@.subrange(2, 6) =~= root@);
            assert(out.inputs@.subrange(6, 34) =~= child.inputs@.subrange(6, 34));
        }
        out
    }
}

/// Inputs to proof generation in the block family.
pub enum CircuitInput {
    /// Left and right children proofs.
    FullNode((ProofWithVK, ProofWithVK)),
    PartialNode(PartialNodeCircuitInputs, ProofWithVK),
}

impl CircuitInput {
    /// Input for merging two serialized child proofs; fails exactly when
    /// either encoding is malformed.
    pub fn new_full_node(left_proof: &Vec<u8>, right_proof: &Vec<u8>) -> (r: Result<
        CircuitInput,
        ProofError,
    >)
        ensures
            r is Ok <==> crate::bundle::valid_wire_bytes(left_proof@)
                && crate::bundle::valid_wire_bytes(right_proof@),
            r is Ok ==> match r->Ok_0 {
                CircuitInput::FullNode((l, rr)) => l.wire_words()
                    == crate::bundle::words_of_bytes(left_proof@)
                    && rr.wire_words() == crate::bundle::words_of_bytes(right_proof@),
                _ => false,
            },
            r is Err ==> r->Err_0 == ProofError::BadProofEncoding,
    {
        let l = ProofWithVK::deserialize(left_proof)?;
        let rr = ProofWithVK::deserialize(right_proof)?;
        Ok(CircuitInput::FullNode((l, rr)))
    }

    /// Input for merging one serialized child proof with a sibling hash;
    /// fails exactly when the child proof's encoding is malformed.
    pub fn new_partial_node(
        child_proof: &Vec<u8>,
        sibling_hash: [u64; 4],
        sibling_is_left: bool,
    ) -> (r: Result<CircuitInput, ProofError>)
        ensures
            r is Ok <==> crate::bundle::valid_wire_bytes(child_proof@),
            r is Ok ==> match r->Ok_0 {
                CircuitInput::PartialNode(node, child) => node.sibling_hash == sibling_hash
                    && node.sibling_is_left == sibling_is_left
                    && child.wire_words() == crate::bundle::words_of_bytes(child_proof@),
                _ => false,
            },
            r is Err ==> r->Err_0 == ProofError::BadProofEncoding,
    {
        let child = ProofWithVK::deserialize(child_proof)?;
        Ok(CircuitInput::PartialNode(
            PartialNodeCircuitInputs { sibling_hash, sibling_is_left },
            child,
        ))
    }
}

/// The block family's compiled circuits and their circuit set: the state
/// circuit, the full-node circuit and the partial-node circuit.
pub struct Parameters {
    pub full_node_circuit: [u64; 4],
    pub partial_node_circuit: [u64; 4],
    pub circuit_set: RecursiveCircuits,
}

impl Parameters {
    /// The set holds exactly the three circuits of the family.
    pub open spec fn wf(self, state_circuit: [u64; 4]) -> bool {
        self.circuit_set.digests@ == seq![
            state_circuit,
            self.full_node_circuit,
            self.partial_node_circuit,
        ]
    }

    /// Build the family's circuits and the set over their digests.
    pub fn build(state_circuit_params: &crate::erc20_state::Parameters) -> (r: Parameters)
        ensures
            r.wf(state_circuit_params.circuit),
    {
        let full_node_circuit = derive_circuit_digest(4);
        let partial_node_circuit = derive_circuit_digest(5);
        let mut digests: Vec<[u64; 4]> = Vec::new();
        digests.push(state_circuit_params.circuit_digest());
        digests.push(full_node_circuit);
        digests.push(partial_node_circuit);
        let r = Parameters {
            full_node_circuit,
            partial_node_circuit,
            circuit_set: RecursiveCircuits::new_from_circuit_digests(digests),
        };
        proof {
            assert(r.circuit_set.digests@ =~= seq![
                state_circuit_params.circuit,
                r.full_node_circuit,
                r.partial_node_circuit,
            ]);
        }
        r
    }

    /// Generate a serialized proof for the requested node kind, verifying
    /// every child proof against the family's circuit set.  A full-node
    /// proof succeeds exactly when its children's layouts merge and both
    /// children's verifier keys belong to the set; a partial-node proof,
    /// exactly when its one child's does.  The returned bundle carries the
    /// chosen circuit's verifier key.
    pub fn generate_proof(&self, input: CircuitInput) -> (r: Result<Vec<u8>, ProofError>)
        ensures
            r is Ok <==> match input {
                CircuitInput::FullNode((left, right)) => {
                    &&& left.proof.public_inputs@.len() >= BLOCK_TOTAL_LEN
                    &&& right.proof.public_inputs@.len() >= BLOCK_TOTAL_LEN
                    &&& full_node_success(
                        left.proof.public_inputs@.take(BLOCK_TOTAL_LEN as int),
                        right.proof.public_inputs@.take(BLOCK_TOTAL_LEN as int),
                    )
                    &&& self.circuit_set.contains_digest(left.vk@)
                    &&& self.circuit_set.contains_digest(right.vk@)
                },
                CircuitInput::PartialNode(_, child) => child.proof.public_inputs@.len()
                    >= BLOCK_TOTAL_LEN && self.circuit_set.contains_digest(child.vk@),
            },
            r is Ok ==> crate::bundle::valid_wire_bytes(r->Ok_0@),
            r is Ok ==> crate::bundle::encoded_vk(r->Ok_0@) == match input {
                CircuitInput::FullNode(_) => self.full_node_circuit@,
                CircuitInput::PartialNode(_, _) => self.partial_node_circuit@,
            },
            r is Ok ==> match input {
                CircuitInput::FullNode((left, right)) => {
                    let pi = crate::bundle::encoded_public_inputs(r->Ok_0@);
                    &&& pi.len() == BLOCK_TOTAL_LEN + 4
                    &&& full_node_output(
                        left.proof.public_inputs@.take(BLOCK_TOTAL_LEN as int),
                        right.proof.public_inputs@.take(BLOCK_TOTAL_LEN as int),
                        pi.take(BLOCK_TOTAL_LEN as int),
                    )
                    &&& pi.subrange(BLOCK_TOTAL_LEN as int, BLOCK_TOTAL_LEN as int + 4)
                        == crate::circuit_set::set_digest_of(self.circuit_set.digests@)
                },
                CircuitInput::PartialNode(inputs, child) => {
                    let pi = crate::bundle::encoded_public_inputs(r->Ok_0@);
                    &&& pi.len() == BLOCK_TOTAL_LEN + 4
                    &&& partial_node_output(
                        child.proof.public_inputs@.take(BLOCK_TOTAL_LEN as int),
                        inputs.sibling_hash@,
                        inputs.sibling_is_left,
                        pi.take(BLOCK_TOTAL_LEN as int),
                    )
                    &&& pi.subrange(BLOCK_TOTAL_LEN as int, BLOCK_TOTAL_LEN as int + 4)
                        == crate::circuit_set::set_digest_of(self.circuit_set.digests@)
                },
            },
    {
        let bundle = match input {
            CircuitInput::FullNode((left, right)) => {
                if left.proof.public_inputs.len() < BLOCK_TOTAL_LEN
                    || right.proof.public_inputs.len() < BLOCK_TOTAL_LEN {
                    return Err(ProofError::BadPublicInputLength);
                }
                let ghost left_vk = left.vk@;
                let ghost right_vk = right.vk@;
                let left_pi = BlockPublicInputs::from_prefix(left.proof.public_inputs.as_slice());
                let right_pi = BlockPublicInputs::from_prefix(right.proof.public_inputs.as_slice());
                let pi = FullNodeCircuit::build(&left_pi, &right_pi)?;
                let mut children: Vec<ProofWithVK> = Vec::new();
                children.push(left);
                children.push(right);
                proof {
                    assert(children@[0].vk@ == left_vk);
                    assert(children@[1].vk@ == right_vk);
                }
                let b = self.circuit_set.generate_proof(
                    &self.full_node_circuit,
                    &children,
                    pi.inputs,
                )?;
                proof {
                    assert(self.circuit_set.contains_digest(left_vk));
                    assert(self.circuit_set.contains_digest(right_vk));
                    let sd = crate::circuit_set::set_digest_of(self.circuit_set.digests@);
                    assert(b.proof.public_inputs@.take(BLOCK_TOTAL_LEN as int)
                        =~= pi.inputs@);
                    assert(b.proof.public_inputs@.subrange(
                        BLOCK_TOTAL_LEN as int,
                        BLOCK_TOTAL_LEN as int + 4,
                    ) =~= sd);
                }
                b
            }
            CircuitInput::PartialNode(inputs, child) => {
                if child.proof.public_inputs.len() < BLOCK_TOTAL_LEN {
                    return Err(ProofError::BadPublicInputLength);
                }
                let ghost child_vk = child.vk@;
                let child_pi = BlockPublicInputs::from_prefix(child.proof.public_inputs.as_slice());
                let pi = inputs.build(&child_pi);
                let mut children: Vec<ProofWithVK> = Vec::new();
                children.push(child);
                proof {
                    assert(children@[0].vk@ == child_vk);
                }
                let b = self.circuit_set.generate_proof(
                    &self.partial_node_circuit,
                    &children,
                    pi.inputs,
                )?;
                proof {
                    assert(self.circuit_set.contains_digest(child_vk));
                    let sd = crate::circuit_set::set_digest_of(self.circuit_set.digests@);
                    assert(b.proof.public_inputs@.take(BLOCK_TOTAL_LEN as int)
                        =~= pi.inputs@);
                    assert(b.proof.public_inputs@.subrange(
                        BLOCK_TOTAL_LEN as int,
                        BLOCK_TOTAL_LEN as int + 4,
                    ) =~= sd);
                }
                b
            }
        };
        proof {
            crate::bundle::lemma_bundle_round_trip(bundle);
            crate::bundle::lemma_encoded_vk(bundle);
            crate::bundle::lemma_encoded_pis(bundle);
        }
        Ok(bundle.serialize())
    }

    /// Verify a serialized proof of this family: it must parse and carry
    /// the verifier key of one of the family's own aggregation circuits.
    /// A malformed encoding is the recoverable caller error; a foreign key
    /// is the set-membership failure.
    pub fn verify_proof(&self, proof_bytes: &Vec<u8>) -> (r: Result<(), ProofError>)
        ensures
            r is Ok <==> crate::bundle::valid_wire_bytes(proof_bytes@)
                && (crate::bundle::encoded_vk(proof_bytes@) == self.full_node_circuit@
                    || crate::bundle::encoded_vk(proof_bytes@) == self.partial_node_circuit@),
            r is Err && !crate::bundle::valid_wire_bytes(proof_bytes@)
                ==> r->Err_0 == ProofError::BadProofEncoding,
            r is Err && crate::bundle::valid_wire_bytes(proof_bytes@)
                ==> r->Err_0 == ProofError::NoCircuitForVerifierKey,
    {
        let p = ProofWithVK::deserialize(proof_bytes)?;
        proof {
            let ws = crate::bundle::words_of_bytes(proof_bytes@);
            assert(ws == p.wire_words());
            assert(ws.subrange(ws.len() - 4, ws.len() as int) =~= p.vk@);
        }
        match RecursiveCircuits::verify_proof_fixed_circuit(&p, &self.full_node_circuit) {
            Ok(_) => Ok(()),
            Err(_) => RecursiveCircuits::verify_proof_fixed_circuit(&p, &self.partial_node_circuit),
        }
    }

    /// The set of circuits whose block proofs later layers accept.
    pub fn get_block_circuit_set(&self) -> (r: &RecursiveCircuits)
        ensures
            r == &self.circuit_set,
    {
        &self.circuit_set
    }
}

} // verus!
