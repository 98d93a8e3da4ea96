//! The state-tree circuit of the ERC20 query: it consumes one storage-tree
//! proof, walks the Merkle path from the contract's state leaf up to the
//! state root, binds it into a block leaf, and exposes the result as the
//! block family's public inputs with a range of one block.

use vstd::prelude::*;

use crate::bundle::ProofWithVK;
use crate::circuit_set::RecursiveCircuits;
use crate::erc20_block::BlockPublicInputs;
use crate::erc20_storage::{derive_circuit_digest, PublicInputs as StorageInputs, slice_range,
    STORAGE_TOTAL_LEN};
use crate::errors::ProofError;
use crate::hash::{node_hash, node_hash_of};

verus! {

/// One step of a Merkle path: the sibling hash and whether the running
/// child is the right child of its parent.
#[derive(Clone, Copy, Debug)]
pub struct PathStep {
    pub sibling: [u64; 4],
    pub child_is_right: bool,
}

/// Folding a Merkle path over a starting hash: at each step the parent
/// hashes the sibling and the running hash in tree order.
pub open spec fn merkle_fold(start: Seq<u64>, path: Seq<PathStep>) -> Seq<u64>
    decreases path.len(),
{
    if path.len() == 0 {
        start
    } else {
        let prev = merkle_fold(start, path.drop_last());
        let step = path.last();
        if step.child_is_right {
            node_hash_of(step.sibling@ + prev)
        } else {
            node_hash_of(prev + step.sibling@)
        }
    }
}

/// Fold a Merkle path in executable code.
pub fn merkle_fold_exec(start: &[u64; 4], path: &Vec<PathStep>) -> (r: [u64; 4])
    ensures
        r@ == merkle_fold(start@, path@),
{
    let mut acc: [u64; 4] = [start[0], start[1], start[2], start[3]];
    proof {
        assert(acc@ =~= start@);
        assert(path@.take(0) =~= Seq::<PathStep>::empty());
    }
    let mut i: usize = 0;
    while i < path.len()
        invariant
            i <= path@.len(),
            acc@ == merkle_fold(start@, path@.take(i as int)),
        decreases path@.len() - i,
    {
        let step = path[i];
        let mut words: Vec<u64> = Vec::new();
        if step.child_is_right {
            words.push(step.sibling[0]);
            words.push(step.sibling[1]);
            words.push(step.sibling[2]);
            words.push(step.sibling[3]);
            words.push(acc[0]);
            words.push(acc[1]);
            words.push(acc[2]);
            words.push(acc[3]);
            proof {
                assert(words@ =~= step.sibling@ + acc@);
            }
        } else {
            words.push(acc[0]);
            words.push(acc[1]);
            words.push(acc[2]);
            words.push(acc[3]);
            words.push(step.sibling[0]);
            words.push(step.sibling[1]);
            words.push(step.sibling[2]);
            words.push(step.sibling[3]);
            proof {
                assert(words@ =~= acc@ + step.sibling@);
            }
        }
        acc = node_hash(&words);
        proof {
            assert(path@.take(i + 1).drop_last() =~= path@.take(i as int));
            assert(path@.take(i + 1).last() == path@[i as int]);
        }
        i = i + 1;
    }
    proof {
        assert(path@.take(path@.len() as int) =~= path@);
    }
    acc
}

/// Witness data of the state circuit.
#[derive(Clone, Debug)]
pub struct StateCircuit {
    pub block_number: u64,
    pub length_slot: u64,
    pub mapping_slot: u64,
    pub smart_contract_address: [u64; 5],
    pub path: Vec<PathStep>,
}

/// The preimage of the contract's state leaf: its address, the two slot
/// identifiers, and the storage root the storage proof exposed.
pub open spec fn state_leaf_preimage(c: StateCircuit, storage_root: Seq<u64>) -> Seq<u64> {
    c.smart_contract_address@ + seq![c.mapping_slot, c.length_slot] + storage_root
}

/// The preimage of the block leaf: the block number and the state root.
pub open spec fn block_leaf_preimage(block_number: u64, state_root: Seq<u64>) -> Seq<u64> {
    seq![block_number] + state_root
}

impl StateCircuit {
    /// Build the block-family public inputs from one storage proof's public
    /// inputs: range is one block, the root is the block leaf over the state
    /// root reached through the Merkle path, and address, slots, result and
    /// rewards rate carry over.
    pub fn build(&self, storage_pi: &StorageInputs) -> (r: BlockPublicInputs)
        requires
            storage_pi.wf(),
        ensures
            r.wf(),
            state_output(*self, storage_pi.inputs@, r.inputs@),
    {
        let storage_root = slice_range(&storage_pi.inputs, 0, 4);
        let mut leaf_words: Vec<u64> = Vec::new();
        leaf_words.push(self.smart_contract_address[0]);
        leaf_words.push(self.smart_contract_address[1]);
        leaf_words.push(self.smart_contract_address[2]);
        leaf_words.push(self.smart_contract_address[3]);
        leaf_words.push(self.smart_contract_address[4]);
        leaf_words.push(self.mapping_slot);
        leaf_words.push(self.length_slot);
        leaf_words.push(storage_root[0]);
        leaf_words.push(storage_root[1]);
        leaf_words.push(storage_root[2]);
        leaf_words.push(storage_root[3]);
        proof {
            assert(leaf_words@ =~= state_leaf_preimage(
                *self,
                storage_pi.inputs@.subrange(0, 4),
            ));
        }
        let state_leaf = node_hash(&leaf_words);
        let state_root = merkle_fold_exec(&state_leaf, &self.path);
        let mut block_words: Vec<u64> = Vec::new();
        block_words.push(self.block_number);
        block_words.push(state_root[0]);
        block_words.push(state_root[1]);
        block_words.push(state_root[2]);
        block_words.push(state_root[3]);
        proof {
            assert(block_words@ =~= block_leaf_preimage(self.block_number, state_root@));
        }
        let root = node_hash(&block_words);

        let mut inputs: Vec<u64> = Vec::new();
        inputs.push(self.block_number);
        inputs.push(1u64);
        inputs.push(root[0]);
        inputs.push(root[1]);
        inputs.push(root[2]);
        inputs.push(root[3]);
        inputs.push(self.smart_contract_address[0]);
        inputs.push(self.smart_contract_address[1]);
        inputs.push(self.smart_contract_address[2]);
        inputs.push(self.smart_contract_address[3]);
        inputs.push(self.smart_contract_address[4]);
        let mut i: usize = 4;
        while i < 9
            invariant
                4 <= i <= 9,
                storage_pi.wf(),
                inputs@.len() == 11 + (i - 4),
                inputs@[0] == self.block_number,
                inputs@[1] == 1u64,
                forall|j: int| 0 <= j < 4 ==> inputs@[2 + j] == root@[j],
                forall|j: int| 0 <= j < 5 ==> inputs@[6 + j] == self.smart_contract_address@[j],
                forall|j: int| 0 <= j < i - 4 ==> #[trigger] inputs@[11 + j] == storage_pi.inputs@[4 + j],
            decreases 9 - i,
        {
            inputs.push(storage_pi.inputs[i]);
            i = i + 1;
        }
        inputs.push(self.mapping_slot);
        inputs.push(self.length_slot);
        let mut k: usize = 9;
        while k < 25
            invariant
                9 <= k <= 25,
                storage_pi.wf(),
                inputs@.len() == 18 + (k - 9),
                inputs@[0] == self.block_number,
                inputs@[1] == 1u64,
                forall|j: int| 0 <= j < 4 ==> inputs@[2 + j] == root@[j],
                forall|j: int| 0 <= j < 5 ==> inputs@[6 + j] == self.smart_contract_address@[j],
                forall|j: int| 0 <= j < 5 ==> #[trigger] inputs@[11 + j] == storage_pi.inputs@[4
                    + j],
                inputs@[16] == self.mapping_slot,
                inputs@[17] == self.length_slot,
                forall|j: int| 0 <= j < k - 9 ==> #[trigger] inputs@[18 + j] == storage_pi.inputs@[9 + j],
            decreases 25 - k,
        {
            inputs.push(storage_pi.inputs[k]);
            k = k + 1;
        }
        proof {
            assert forall|j: int| 0 <= j < 5 implies #[trigger] inputs@[11 + j] == storage_pi.inputs@[4 + j] by {
                assert(inputs@[11 + j] == storage_pi.inputs@[4 + j]);
            }
            assert forall|j: int| 0 <= j < 16 implies #[trigger] inputs@[18 + j] == storage_pi.inputs@[9 + j] by {
                assert(inputs@[18 + j] == storage_pi.inputs@[9 + j]);
            }
        }
        let out = BlockPublicInputs { inputs };
        proof {
            assert(out.inputs@.subrange(2, 6) =~= root@);
            assert(root@ == block_leaf_preimage_root(*self, storage_pi.inputs@));
            assert(out.inputs@.subrange(6, 11) =~= self.smart_contract_address@);
            assert forall|j: int| 0 <= j < 5
                implies out.inputs@.subrange(11, 16)[j] == storage_pi.inputs@.subrange(4, 9)[j] by {
                assert(inputs@[11 + j] == storage_pi.inputs@[4 + j]);
            }
            assert(out.inputs@.subrange(11, 16) =~= storage_pi.inputs@.subrange(4, 9));
            assert forall|j: int| 0 <= j < 8
                implies out.inputs@.subrange(18, 26)[j] == storage_pi.inputs@.subrange(9, 17)[j] by {
                assert(inputs@[18 + j] == storage_pi.inputs@[9 + j]);
            }
            assert(out.inputs@.subrange(18, 26) =~= storage_pi.inputs@.subrange(9, 17));
            assert forall|j: int| 0 <= j < 8
                implies out.inputs@.subrange(26, 34)[j] == storage_pi.inputs@.subrange(17, 25)[j] by {
                assert(inputs@[18 + (8 + j)] == storage_pi.inputs@[9 + (8 + j)]);
            }
            assert(out.inputs@.subrange(26, 34) =~= storage_pi.inputs@.subrange(17, 25));
        }
        out
    }
}

/// The block-leaf root the state circuit computes for its witness and a
/// storage proof: the state leaf, folded up the Merkle path, bound to the
/// block number.
pub open spec fn block_leaf_preimage_root(c: StateCircuit, storage_pi: Seq<u64>) -> Seq<u64> {
    let state_leaf = node_hash_of(state_leaf_preimage(c, storage_pi.subrange(0, 4)));
    let state_root = merkle_fold(state_leaf, c.path@);
    node_hash_of(block_leaf_preimage(c.block_number, state_root))
}

/// The block-family layout the state circuit exposes over a storage
/// proof's words: one block at the witnessed number, rooted at the block
/// leaf, with address, slots, result and rewards carried over.
pub open spec fn state_output(c: StateCircuit, storage_pi: Seq<u64>, pi: Seq<u64>) -> bool {
    &&& pi.len() == crate::erc20_block::BLOCK_TOTAL_LEN
    &&& pi[0] == c.block_number
    &&& pi[1] == 1u64
    &&& pi.subrange(2, 6) == block_leaf_preimage_root(c, storage_pi)
    &&& pi.subrange(6, 11) == c.smart_contract_address@
    &&& pi.subrange(11, 16) == storage_pi.subrange(4, 9)
    &&& pi[16] == c.mapping_slot
    &&& pi[17] == c.length_slot
    &&& pi.subrange(18, 26) == storage_pi.subrange(9, 17)
    &&& pi.subrange(26, 34) == storage_pi.subrange(17, 25)
}

/// The compiled state circuit and the storage circuit set its universal
/// verifier was built against.
pub struct Parameters {
    pub circuit: [u64; 4],
    pub storage_set: RecursiveCircuits,
}

/// Input to state proof generation: the circuit witness plus the serialized
/// storage proof to verify recursively.
pub struct StateCircuitInput {
    pub circuit: StateCircuit,
    pub storage_proof: Vec<u8>,
}

impl Parameters {
    /// Build the state circuit against the set of storage circuits whose
    /// proofs it accepts.
    pub fn build(storage_set: &RecursiveCircuits) -> (r: Parameters)
        ensures
            r.storage_set.digests@ == storage_set.digests@,
    {
        let mut digests: Vec<[u64; 4]> = Vec::new();
        let mut i: usize = 0;
        while i < storage_set.digests.len()
            invariant
                i <= storage_set.digests@.len(),
                digests@.len() == i,
                forall|j: int| 0 <= j < i ==> digests@[j] == storage_set.digests@[j],
            decreases storage_set.digests@.len() - i,
        {
            digests.push(storage_set.digests[i]);
            i = i + 1;
        }
        proof {
            assert(digests@ =~= storage_set.digests@);
        }
        Parameters {
            circuit: derive_circuit_digest(3),
            storage_set: RecursiveCircuits::new_from_circuit_digests(digests),
        }
    }

    /// The digest identifying the compiled state circuit.
    pub fn circuit_digest(&self) -> (r: [u64; 4])
        ensures
            r == self.circuit,
    {
        [self.circuit[0], self.circuit[1], self.circuit[2], self.circuit[3]]
    }

    /// Generate a state proof as a member of the block circuit set: the
    /// storage proof is deserialized and checked against the storage set,
    /// then the state outputs are proved under the block set.  It succeeds
    /// exactly when the storage proof parses, carries a verifier key of the
    /// storage set, and exposes a full storage layout; the returned bundle
    /// carries the state circuit's verifier key.
    pub fn generate_proof(
        &self,
        block_set: &RecursiveCircuits,
        input: &StateCircuitInput,
    ) -> (r: Result<Vec<u8>, ProofError>)
        ensures
            r is Ok <==> {
                &&& crate::bundle::valid_wire_bytes(input.storage_proof@)
                &&& self.storage_set.contains_digest(
                    crate::bundle::encoded_vk(input.storage_proof@),
                )
                &&& crate::bundle::encoded_public_inputs(input.storage_proof@).len()
                    >= STORAGE_TOTAL_LEN
            },
            r is Ok ==> crate::bundle::valid_wire_bytes(r->Ok_0@),
            r is Ok ==> crate::bundle::encoded_vk(r->Ok_0@) == self.circuit@,
            r is Ok ==> {
                let pi = crate::bundle::encoded_public_inputs(r->Ok_0@);
                let storage_pi = crate::bundle::encoded_public_inputs(
                    input.storage_proof@,
                ).take(STORAGE_TOTAL_LEN as int);
                &&& pi.len() == crate::erc20_block::BLOCK_TOTAL_LEN + 4
                &&& state_output(
                    input.circuit,
                    storage_pi,
                    pi.take(crate::erc20_block::BLOCK_TOTAL_LEN as int),
                )
                &&& pi.subrange(
                    crate::erc20_block::BLOCK_TOTAL_LEN as int,
                    crate::erc20_block::BLOCK_TOTAL_LEN as int + 4,
                ) == crate::circuit_set::set_digest_of(block_set.digests@)
            },
    {
        let storage_proof = ProofWithVK::deserialize(&input.storage_proof)?;
        proof {
            let ws = crate::bundle::words_of_bytes(input.storage_proof@);
            assert(ws == storage_proof.wire_words());
            assert(ws.subrange(ws.len() - 4, ws.len() as int) =~= storage_proof.vk@);
            assert(ws.subrange(1, ws.len() - 4) =~= storage_proof.proof.public_inputs@);
        }
        self.storage_set.verify_proof_in_set(&storage_proof)?;
        if storage_proof.proof.public_inputs.len() < STORAGE_TOTAL_LEN {
            return Err(ProofError::BadPublicInputLength);
        }
        let storage_pi = StorageInputs::from_prefix(storage_proof.proof.public_inputs.as_slice());
        let pi = input.circuit.build(&storage_pi);
        let bundle = block_set.generate_proof(&self.circuit, &Vec::new(), pi.inputs)?;
        proof {
            crate::bundle::lemma_bundle_round_trip(bundle);
            crate::bundle::lemma_encoded_vk(bundle);
            crate::bundle::lemma_encoded_pis(bundle);
        }
        let out = bundle.serialize();
        proof {
            let enc = crate::bundle::encoded_public_inputs(out@);
            assert(enc == bundle.proof.public_inputs@);
            assert(enc.take(crate::erc20_block::BLOCK_TOTAL_LEN as int) =~= pi.inputs@);
            assert(enc.subrange(
                crate::erc20_block::BLOCK_TOTAL_LEN as int,
                crate::erc20_block::BLOCK_TOTAL_LEN as int + 4,
            ) =~= crate::circuit_set::set_digest_of(block_set.digests@));
            assert(crate::bundle::encoded_public_inputs(input.storage_proof@).take(
                STORAGE_TOTAL_LEN as int,
            ) =~= storage_pi.inputs@);
            assert(state_output(
                input.circuit,
                crate::bundle::encoded_public_inputs(input.storage_proof@).take(
                    STORAGE_TOTAL_LEN as int,
                ),
                enc.take(crate::erc20_block::BLOCK_TOTAL_LEN as int),
            ));
        }
        Ok(out)
    }
}

} // verus!
