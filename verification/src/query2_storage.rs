//! Storage-tree circuits of the per-entry query: a leaf committing one
//! mapping entry, a full inner node over two proved children, and a partial
//! inner node over one proved child and an untouched sibling hash.
//!
//! The public-input layout of this family is, in order: the subtree root
//! commitment (4 words), the group-additive per-query digest (4 words) and
//! the packed owner value (8 words).

use vstd::prelude::*;

use crate::bundle::ProofWithVK;
use crate::circuit_set::RecursiveCircuits;
use crate::digest::{digest_of_words, Digest, GOLDILOCKS_P};
use crate::erc20_storage::{derive_circuit_digest, slice_range};
use crate::errors::ProofError;
use crate::hash::{node_hash, node_hash_of};
use crate::mapping::left_pad32_of;
use crate::pack::{left_pad32, pack_bytes32};

verus! {

/// Total word length of this family's public inputs.
pub const QUERY2_TOTAL_LEN: usize = 16;

/// The public inputs of a storage-tree proof of the per-entry query.
#[derive(Clone, Debug)]
pub struct PublicInputs {
    pub inputs: Vec<u64>,
}

impl PublicInputs {
    /// The layout has its declared length.
    pub open spec fn wf(self) -> bool {
        self.inputs@.len() == QUERY2_TOTAL_LEN
    }

    /// Total length of the layout.
    pub fn total_len() -> (r: usize)
        ensures
            r == QUERY2_TOTAL_LEN,
    {
        QUERY2_TOTAL_LEN
    }

    /// Read a layout from a public-input slice of exactly the declared
    /// length; a slice of any other length is a caller error the layout
    /// refuses.
    pub fn from_slice(arr: &[u64]) -> (r: PublicInputs)
        requires
            arr@.len() == QUERY2_TOTAL_LEN,
        ensures
            r.inputs@ == arr@,
            r.wf(),
    {
        let r = Self::from_prefix(arr);
        proof {
            assert(arr@.take(QUERY2_TOTAL_LEN as int) =~= arr@);
        }
        r
    }

    /// Read a layout off the front of a longer word vector, as when a
    /// proof's public inputs carry the set digest after the layout.
    pub(crate) fn from_prefix(arr: &[u64]) -> (r: PublicInputs)
        requires
            arr@.len() >= QUERY2_TOTAL_LEN,
        ensures
            r.inputs@ == arr@.take(QUERY2_TOTAL_LEN as int),
            r.wf(),
    {
        let mut inputs: Vec<u64> = Vec::new();
        let mut i: usize = 0;
        while i < QUERY2_TOTAL_LEN
            invariant
                i <= QUERY2_TOTAL_LEN,
                arr@.len() >= QUERY2_TOTAL_LEN,
                inputs@.len() == i,
                forall|j: int| 0 <= j < i ==> inputs@[j] == arr@[j],
            decreases QUERY2_TOTAL_LEN - i,
        {
            inputs.push(arr[i]);
            i = i + 1;
        }
        proof {
            assert(inputs@ =~= arr@.take(QUERY2_TOTAL_LEN as int));
        }
        PublicInputs { inputs }
    }

    /// Write the three parts of the layout into the provided value array.
    pub fn parts_into_values(
        values: &mut [u64; 16],
        root: &[u64; 4],
        digest: &[u64; 4],
        owner: &[u64; 8],
    )
        ensures
            final(values)@.subrange(0, 4) == root@,
            final(values)@.subrange(4, 8) == digest@,
            final(values)@.subrange(8, 16) == owner@,
    {
        values[0] = root[0];
        values[1] = root[1];
        values[2] = root[2];
        values[3] = root[3];
        values[4] = digest[0];
        values[5] = digest[1];
        values[6] = digest[2];
        values[7] = digest[3];
        values[8] = owner[0];
        values[9] = owner[1];
        values[10] = owner[2];
        values[11] = owner[3];
        values[12] = owner[4];
        values[13] = owner[5];
        values[14] = owner[6];
        values[15] = owner[7];
        proof {
            assert(values@.subrange(0, 4) =~= root@);
            assert(values@.subrange(4, 8) =~= digest@);
            assert(values@.subrange(8, 16) =~= owner@);
        }
    }

    /// The subtree root commitment words.
    pub fn root(&self) -> (r: Vec<u64>)
        requires
            self.wf(),
        ensures
            r@ == self.inputs@.subrange(0, 4),
    {
        slice_range(&self.inputs, 0, 4)
    }

    /// The per-query digest words.
    pub fn digest(&self) -> (r: Vec<u64>)
        requires
            self.wf(),
        ensures
            r@ == self.inputs@.subrange(4, 8),
    {
        slice_range(&self.inputs, 4, 8)
    }

    /// The packed owner value words.
    pub fn owner(&self) -> (r: Vec<u64>)
        requires
            self.wf(),
        ensures
            r@ == self.inputs@.subrange(8, 16),
    {
        slice_range(&self.inputs, 8, 16)
    }

    /// The digest field read as a group element; fails if a coordinate is
    /// not reduced.
    pub fn digest_value(&self) -> (r: Option<Digest>)
        requires
            self.wf(),
        ensures
            r is Some <==> (forall|j: int| 0 <= j < 4
                ==> #[trigger] self.inputs@.subrange(4, 8)[j] < GOLDILOCKS_P),
            r is Some ==> r->0.wf() && r->0.coords@ == self.inputs@.subrange(4, 8),
    {
        let w0: u64 = self.inputs[4];
        let w1: u64 = self.inputs[5];
        let w2: u64 = self.inputs[6];
        let w3: u64 = self.inputs[7];
        if w0 < GOLDILOCKS_P && w1 < GOLDILOCKS_P && w2 < GOLDILOCKS_P && w3 < GOLDILOCKS_P {
            let d = Digest { coords: [w0, w1, w2, w3] };
            proof {
                assert(d.coords@ =~= self.inputs@.subrange(4, 8));
            }
            Some(d)
        } else {
            proof {
                assert(self.inputs@.subrange(4, 8)[0] == w0);
                assert(self.inputs@.subrange(4, 8)[1] == w1);
                assert(self.inputs@.subrange(4, 8)[2] == w2);
                assert(self.inputs@.subrange(4, 8)[3] == w3);
            }
            None
        }
    }
}

/// The domain-separation prefix of a leaf commitment.
pub open spec fn leaf_prefix_words() -> Seq<u64> {
    seq![0x4Cu64, 0x45u64, 0x41u64, 0x46u64]
}

/// The packed words of a byte string left-padded to 32 bytes.
pub open spec fn packed_words_of(bytes: Seq<u8>) -> Seq<u64> {
    Seq::new(8, |i: int| crate::pack::packed_bytes_word(left_pad32_of(bytes), i))
}

/// The reference commitment of one mapping entry: the leaf prefix, the
/// packed key and the packed value, hashed.
pub open spec fn leaf_hash_for_mapping_of(k: Seq<u8>, v: Seq<u8>) -> Seq<u64> {
    node_hash_of(leaf_prefix_words() + packed_words_of(k) + packed_words_of(v))
}

/// Pack a byte string of at most 32 bytes into its 8 words.
fn pack_value(bytes: &[u8]) -> (r: Result<Vec<u64>, ProofError>)
    ensures
        r is Ok <==> bytes@.len() <= 32,
        r is Ok ==> r->Ok_0@ == packed_words_of(bytes@) && r->Ok_0@.len() == 8,
        r is Err ==> r->Err_0 == ProofError::BadPublicInputLength,
{
    match left_pad32(bytes) {
        Some(padded) => {
            let packed = pack_bytes32(&padded);
            proof {
                assert(padded@ =~= left_pad32_of(bytes@));
                assert(packed@ =~= packed_words_of(bytes@));
            }
            Ok(packed)
        }
        None => Err(ProofError::BadPublicInputLength),
    }
}

/// Compute the reference commitment of one mapping entry independently of
/// any circuit.
pub fn leaf_hash_for_mapping(k: &[u8], v: &[u8]) -> (r: Result<[u64; 4], ProofError>)
    ensures
        r is Ok <==> k@.len() <= 32 && v@.len() <= 32,
        r is Ok ==> r->Ok_0@ == leaf_hash_for_mapping_of(k@, v@),
{
    let packed_k = pack_value(k)?;
    let packed_v = pack_value(v)?;
    let mut words: Vec<u64> = Vec::new();
    words.push(0x4Cu64);
    words.push(0x45u64);
    words.push(0x41u64);
    words.push(0x46u64);
    let mut i: usize = 0;
    while i < 8
        invariant
            i <= 8,
            packed_k@.len() == 8,
            words@.len() == 4 + i,
            words@[0] == 0x4Cu64 && words@[1] == 0x45u64 && words@[2] == 0x41u64 && words@[3]
                == 0x46u64,
            forall|j: int| 0 <= j < i ==> words@[4 + j] == packed_k@[j],
        decreases 8 - i,
    {
        words.push(packed_k[i]);
        i = i + 1;
    }
    let mut v2: usize = 0;
    while v2 < 8
        invariant
            v2 <= 8,
            packed_k@.len() == 8,
            packed_v@.len() == 8,
            words@.len() == 12 + v2,
            words@[0] == 0x4Cu64 && words@[1] == 0x45u64 && words@[2] == 0x41u64 && words@[3]
                == 0x46u64,
            forall|j: int| 0 <= j < 8 ==> words@[4 + j] == packed_k@[j],
            forall|j: int| 0 <= j < v2 ==> words@[12 + j] == packed_v@[j],
        decreases 8 - v2,
    {
        words.push(packed_v[v2]);
        v2 = v2 + 1;
    }
    proof {
        assert(words@ =~= leaf_prefix_words() + packed_words_of(k@) + packed_words_of(v@));
    }
    Ok(node_hash(&words))
}

/// The reference commitment of an intermediate node: the two child roots
/// hashed in order.
pub fn intermediate_node_hash(left: &[u64; 4], right: &[u64; 4]) -> (r: [u64; 4])
    ensures
        r@ == node_hash_of(left@ + right@),
{
    let mut words: Vec<u64> = Vec::new();
    words.push(left[0]);
    words.push(left[1]);
    words.push(left[2]);
    words.push(left[3]);
    words.push(right[0]);
    words.push(right[1]);
    words.push(right[2]);
    words.push(right[3]);
    proof {
        assert(words@ =~= left@ + right@);
    }
    node_hash(&words)
}

/// The layout a storage leaf exposes for its witness: the reference
/// commitment of the entry, the packed key's digest contribution, and the
/// packed value as the owner field.
pub open spec fn query2_leaf_output(c: LeafCircuit, pi: Seq<u64>) -> bool {
    &&& pi.len() == QUERY2_TOTAL_LEN
    &&& pi.subrange(0, 4) == leaf_hash_for_mapping_of(c.mapping_key@, c.mapping_value@)
    &&& pi.subrange(4, 8) == digest_of_words(packed_words_of(c.mapping_key@)).coords@
    &&& pi.subrange(8, 16) == packed_words_of(c.mapping_value@)
}

/// The layout a full inner node exposes over its two proved children: the
/// order-sensitive hash of the two roots, the commutative sum of the two
/// digests, and the shared owner passed through.
pub open spec fn full_inner_output(left: Seq<u64>, right: Seq<u64>, pi: Seq<u64>) -> bool {
    &&& pi.len() == QUERY2_TOTAL_LEN
    &&& pi.subrange(0, 4) == node_hash_of(left.subrange(0, 4) + right.subrange(0, 4))
    &&& pi.subrange(4, 8) == Digest {
        coords: [left[4], left[5], left[6], left[7]],
    }.add_spec(Digest { coords: [right[4], right[5], right[6], right[7]] }).coords@
    &&& pi.subrange(8, 16) == left.subrange(8, 16)
}

/// The layout a partial inner node exposes over its proved child: the
/// ordered hash of sibling and child root, everything else passed through.
pub open spec fn partial_inner_output(
    proved: Seq<u64>,
    sibling: Seq<u64>,
    proved_is_right: bool,
    pi: Seq<u64>,
) -> bool {
    &&& pi.len() == QUERY2_TOTAL_LEN
    &&& pi.subrange(0, 4) == node_hash_of(
        if proved_is_right {
            sibling + proved.subrange(0, 4)
        } else {
            proved.subrange(0, 4) + sibling
        },
    )
    &&& pi.subrange(4, 16) == proved.subrange(4, 16)
}

/// Witness data of a storage leaf: the raw mapping key and value it holds.
#[derive(Clone, Debug)]
pub struct LeafCircuit {
    pub mapping_key: Vec<u8>,
    pub mapping_value: Vec<u8>,
}

impl LeafCircuit {
    /// Build a leaf's public inputs: the root commits the key and value
    /// under the leaf prefix, the digest is the packed key's contribution,
    /// and the owner field is the packed value.
    pub fn build(&self) -> (r: Result<PublicInputs, ProofError>)
        ensures
            r is Ok <==> self.mapping_key@.len() <= 32 && self.mapping_value@.len() <= 32,
            r is Ok ==> r->Ok_0.wf() && query2_leaf_output(*self, r->Ok_0.inputs@),
    {
        let root = leaf_hash_for_mapping(
            self.mapping_key.as_slice(),
            self.mapping_value.as_slice(),
        )?;
        let packed_k = pack_value(self.mapping_key.as_slice())?;
        let packed_v = pack_value(self.mapping_value.as_slice())?;
        let digest = crate::digest::digest_from_words(&packed_k);
        let mut inputs: Vec<u64> = Vec::new();
        inputs.push(root[0]);
        inputs.push(root[1]);
        inputs.push(root[2]);
        inputs.push(root[3]);
        inputs.push(digest.coords[0]);
        inputs.push(digest.coords[1]);
        inputs.push(digest.coords[2]);
        inputs.push(digest.coords[3]);
        let mut i: usize = 0;
        while i < 8
            invariant
                i <= 8,
                packed_v@.len() == 8,
                inputs@.len() == 8 + i,
                forall|j: int| 0 <= j < 4 ==> inputs@[j] == root@[j],
                forall|j: int| 0 <= j < 4 ==> inputs@[4 + j] == digest.coords@[j],
                forall|j: int| 0 <= j < i ==> inputs@[8 + j] == packed_v@[j],
            decreases 8 - i,
        {
            inputs.push(packed_v[i]);
            i = i + 1;
        }
        let out = PublicInputs { inputs };
        proof {
            assert(out.inputs@.subrange(0, 4) =~= root@);
            assert(out.inputs@.subrange(4, 8) =~= digest.coords@);
            assert(out.inputs@.subrange(8, 16) =~= packed_v@);
        }
        Ok(out)
    }
}

/// The full-inner-node circuit: both children are proved.
#[derive(Clone, Debug)]
pub struct FullInnerNodeCircuit {}

impl FullInnerNodeCircuit {
    /// Build a full inner node's public inputs: the new root hashes the two
    /// child roots in order — so it is order-sensitive — while the new
    /// digest adds the two child digests in the commutative accumulator.
    /// Both children must expose the same owner.
    pub fn build(left: &PublicInputs, right: &PublicInputs) -> (r: Result<
        PublicInputs,
        ProofError,
    >)
        requires
            left.wf(),
            right.wf(),
        ensures
            r is Ok <==> left.inputs@.subrange(8, 16) == right.inputs@.subrange(8, 16)
                && (forall|j: int| 0 <= j < 4
                    ==> #[trigger] left.inputs@.subrange(4, 8)[j] < GOLDILOCKS_P)
                && (forall|j: int| 0 <= j < 4
                    ==> #[trigger] right.inputs@.subrange(4, 8)[j] < GOLDILOCKS_P),
            r is Ok ==> r->Ok_0.wf()
                && full_inner_output(left.inputs@, right.inputs@, r->Ok_0.inputs@),
    {
        let left_owner = slice_range(&left.inputs, 8, 16);
        let right_owner = slice_range(&right.inputs, 8, 16);
        if !crate::erc20_block::word_vecs_equal(&left_owner, &right_owner) {
            return Err(ProofError::MismatchedSiblingFields);
        }
        let ld = match left.digest_value() {
            Some(d) => d,
            None => {
                return Err(ProofError::BadPublicInputLength);
            }
        };
        let rd = match right.digest_value() {
            Some(d) => d,
            None => {
                return Err(ProofError::BadPublicInputLength);
            }
        };
        let sum = ld.add(&rd);
        let lr: [u64; 4] = [left.inputs[0], left.inputs[1], left.inputs[2], left.inputs[3]];
        let rr: [u64; 4] = [right.inputs[0], right.inputs[1], right.inputs[2], right.inputs[3]];
        let root = intermediate_node_hash(&lr, &rr);
        let mut inputs: Vec<u64> = Vec::new();
        inputs.push(root[0]);
        inputs.push(root[1]);
        inputs.push(root[2]);
        inputs.push(root[3]);
        inputs.push(sum.coords[0]);
        inputs.push(sum.coords[1]);
        inputs.push(sum.coords[2]);
        inputs.push(sum.coords[3]);
        let mut i: usize = 8;
        while i < 16
            invariant
                8 <= i <= 16,
                left.wf(),
                inputs@.len() == i,
                forall|j: int| 0 <= j < 4 ==> inputs@[j] == root@[j],
                forall|j: int| 0 <= j < 4 ==> inputs@[4 + j] == sum.coords@[j],
                forall|j: int| 8 <= j < i ==> inputs@[j] == left.inputs@[j],
            decreases 16 - i,
        {
            inputs.push(left.inputs[i]);
            i = i + 1;
        }
        let out = PublicInputs { inputs };
        proof {
            assert(lr@ =~= left.inputs@.subrange(0, 4));
            assert(rr@ =~= right.inputs@.subrange(0, 4));
            assert(out.inputs@.subrange(0, 4) =~= root@);
            assert(out.inputs@.subrange(4, 8) =~= sum.coords@);
            assert(out.inputs@.subrange(8, 16) =~= left.inputs@.subrange(8, 16));
            assert(sum == Digest { coords: [left.inputs@[4], left.inputs@[5], left.inputs@[6], left.inputs@[7]] }.add_spec(
                Digest { coords: [right.inputs@[4], right.inputs@[5], right.inputs@[6], right.inputs@[7]] },
            ));
        }
        Ok(out)
    }
}

/// The partial-inner-node circuit: one proved child, one untouched sibling.
#[derive(Clone, Debug)]
pub struct PartialInnerNodeCircuit {
    pub proved_is_right: bool,
    pub unproved_hash: [u64; 4],
}

impl PartialInnerNodeCircuit {
    /// Build a partial inner node's public inputs: the new root hashes the
    /// sibling and the proved child in tree order; digest and owner pass
    /// through from the proved child.
    pub fn build(&self, proved: &PublicInputs) -> (r: PublicInputs)
        requires
            proved.wf(),
        ensures
            r.wf(),
            partial_inner_output(
                proved.inputs@,
                self.unproved_hash@,
                self.proved_is_right,
                r.inputs@,
            ),
    {
        let pr: [u64; 4] = [proved.inputs[0], proved.inputs[1], proved.inputs[2], proved.inputs[3]];
        let root: [u64; 4];
        if self.proved_is_right {
            root = intermediate_node_hash(&self.unproved_hash, &pr);
        } else {
            root = intermediate_node_hash(&pr, &self.unproved_hash);
        }
        let mut inputs: Vec<u64> = Vec::new();
        inputs.push(root[0]);
        inputs.push(root[1]);
        inputs.push(root[2]);
        inputs.push(root[3]);
        let mut i: usize = 4;
        while i < 16
            invariant
                4 <= i <= 16,
                proved.wf(),
                inputs@.len() == i,
                forall|j: int| 0 <= j < 4 ==> inputs@[j] == root@[j],
                forall|j: int| 4 <= j < i ==> inputs@[j] == proved.inputs@[j],
            decreases 16 - i,
        {
            inputs.push(proved.inputs[i]);
            i = i + 1;
        }
        let out = PublicInputs { inputs };
        proof {
            assert(pr@ =~= proved.inputs@.subrange(0, 4));
            assert(out.inputs@.subrange(0, 4) =~= root@);
            assert(out.inputs@.subrange(4, 16) =~= proved.inputs@.subrange(4, 16));
        }
        out
    }
}

/// Inputs to proof generation in this family.
pub enum CircuitInput {
    Leaf(LeafCircuit),
    PartialNode(PartialInnerNodeCircuit, ProofWithVK),
    FullNode(ProofWithVK, ProofWithVK),
}

impl CircuitInput {
    /// Input for proving a storage leaf from its raw key and value.
    pub fn new_leaf(k: &[u8], v: &[u8]) -> (r: CircuitInput)
        ensures
            r matches CircuitInput::Leaf(leaf) ==> leaf.mapping_key@ == k@
                && leaf.mapping_value@ == v@,
            r is Leaf,
    {
        let mut mapping_key: Vec<u8> = Vec::new();
        let mut i: usize = 0;
        while i < k.len()
            invariant
                i <= k@.len(),
                mapping_key@.len() == i,
                forall|t: int| 0 <= t < i ==> mapping_key@[t] == k@[t],
            decreases k@.len() - i,
        {
            mapping_key.push(k[i]);
            i = i + 1;
        }
        let mut mapping_value: Vec<u8> = Vec::new();
        let mut j: usize = 0;
        while j < v.len()
            invariant
                j <= v@.len(),
                mapping_value@.len() == j,
                forall|t: int| 0 <= t < j ==> mapping_value@[t] == v@[t],
            decreases v@.len() - j,
        {
            mapping_value.push(v[j]);
            j = j + 1;
        }
        proof {
            assert(mapping_key@ =~= k@);
            assert(mapping_value@ =~= v@);
        }
        CircuitInput::Leaf(LeafCircuit { mapping_key, mapping_value })
    }

    /// Input for proving a partial inner node over a serialized child proof;
    /// fails exactly when the child proof's encoding is malformed.
    pub fn new_partial_node(
        child_proof: &Vec<u8>,
        unproved_hash: [u64; 4],
        proved_is_right: bool,
    ) -> (r: Result<CircuitInput, ProofError>)
        ensures
            r is Ok <==> crate::bundle::valid_wire_bytes(child_proof@),
            r is Ok ==> match r->Ok_0 {
                CircuitInput::PartialNode(node, child) => node.proved_is_right == proved_is_right
                    && node.unproved_hash == unproved_hash
                    && child.wire_words() == crate::bundle::words_of_bytes(child_proof@),
                _ => false,
            },
            r is Err ==> r->Err_0 == ProofError::BadProofEncoding,
    {
        let child = ProofWithVK::deserialize(child_proof)?;
        Ok(CircuitInput::PartialNode(
            PartialInnerNodeCircuit { proved_is_right, unproved_hash },
            child,
        ))
    }

    /// Input for proving a full inner node over two serialized child proofs;
    /// fails exactly when either encoding is malformed.
    pub fn new_full_node(left_proof: &Vec<u8>, right_proof: &Vec<u8>) -> (r: Result<
        CircuitInput,
        ProofError,
    >)
        ensures
            r is Ok <==> crate::bundle::valid_wire_bytes(left_proof@)
                && crate::bundle::valid_wire_bytes(right_proof@),
            r is Ok ==> match r->Ok_0 {
                CircuitInput::FullNode(l, rr) => l.wire_words()
                    == crate::bundle::words_of_bytes(left_proof@)
                    && rr.wire_words() == crate::bundle::words_of_bytes(right_proof@),
                _ => false,
            },
            r is Err ==> r->Err_0 == ProofError::BadProofEncoding,
    {
        let l = ProofWithVK::deserialize(left_proof)?;
        let rr = ProofWithVK::deserialize(right_proof)?;
        Ok(CircuitInput::FullNode(l, rr))
    }
}

/// This family's compiled circuits and their set.
pub struct Parameters {
    pub leaf_circuit: [u64; 4],
    pub full_node_circuit: [u64; 4],
    pub partial_node_circuit: [u64; 4],
    pub set: RecursiveCircuits,
}

impl Parameters {
    /// Build the three circuits once; the set commits to exactly those
    /// circuits and never changes afterwards.
    pub fn build() -> (r: Parameters)
        ensures
            r.set.digests@ == seq![
                r.leaf_circuit,
                r.full_node_circuit,
                r.partial_node_circuit,
            ],
    {
        let leaf_circuit = derive_circuit_digest(20);
        let full_node_circuit = derive_circuit_digest(21);
        let partial_node_circuit = derive_circuit_digest(22);
        let mut digests: Vec<[u64; 4]> = Vec::new();
        digests.push(leaf_circuit);
        digests.push(full_node_circuit);
        digests.push(partial_node_circuit);
        let r = Parameters {
            leaf_circuit,
            full_node_circuit,
            partial_node_circuit,
            set: RecursiveCircuits::new_from_circuit_digests(digests),
        };
        proof {
            assert(r.set.digests@ =~= seq![
                r.leaf_circuit,
                r.full_node_circuit,
                r.partial_node_circuit,
            ]);
        }
        r
    }

    /// Generate a serialized proof for the requested node kind.  A leaf
    /// succeeds exactly when its witness is acceptable; the merge nodes
    /// additionally verify their children against the circuit set.  The
    /// returned bundle carries the requested circuit's verifier key.
    pub fn generate_proof(&self, input: CircuitInput) -> (r: Result<Vec<u8>, ProofError>)
        ensures
            r is Ok <==> match input {
                CircuitInput::Leaf(leaf) => leaf.mapping_key@.len() <= 32
                    && leaf.mapping_value@.len() <= 32,
                CircuitInput::PartialNode(_, child) => child.proof.public_inputs@.len()
                    >= QUERY2_TOTAL_LEN && self.set.contains_digest(child.vk@),
                CircuitInput::FullNode(left, right) => {
                    let l = left.proof.public_inputs@.take(QUERY2_TOTAL_LEN as int);
                    let rr = right.proof.public_inputs@.take(QUERY2_TOTAL_LEN as int);
                    &&& left.proof.public_inputs@.len() >= QUERY2_TOTAL_LEN
                    &&& right.proof.public_inputs@.len() >= QUERY2_TOTAL_LEN
                    &&& l.subrange(8, 16) == rr.subrange(8, 16)
                    &&& (forall|j: int| 0 <= j < 4
                        ==> #[trigger] l.subrange(4, 8)[j] < GOLDILOCKS_P)
                    &&& (forall|j: int| 0 <= j < 4
                        ==> #[trigger] rr.subrange(4, 8)[j] < GOLDILOCKS_P)
                    &&& self.set.contains_digest(left.vk@)
                    &&& self.set.contains_digest(right.vk@)
                },
            },
            r is Ok ==> crate::bundle::valid_wire_bytes(r->Ok_0@),
            r is Ok ==> crate::bundle::encoded_vk(r->Ok_0@) == match input {
                CircuitInput::Leaf(_) => self.leaf_circuit@,
                CircuitInput::PartialNode(_, _) => self.partial_node_circuit@,
                CircuitInput::FullNode(_, _) => self.full_node_circuit@,
            },
            r is Ok ==> match input {
                CircuitInput::Leaf(leaf) => {
                    let pi = crate::bundle::encoded_public_inputs(r->Ok_0@);
                    &&& pi.len() == QUERY2_TOTAL_LEN + 4
                    &&& query2_leaf_output(leaf, pi.take(QUERY2_TOTAL_LEN as int))
                    &&& pi.subrange(QUERY2_TOTAL_LEN as int, QUERY2_TOTAL_LEN as int + 4)
                        == crate::circuit_set::set_digest_of(self.set.digests@)
                },
                CircuitInput::PartialNode(node, child) => {
                    let pi = crate::bundle::encoded_public_inputs(r->Ok_0@);
                    &&& pi.len() == QUERY2_TOTAL_LEN + 4
                    &&& partial_inner_output(
                        child.proof.public_inputs@.take(QUERY2_TOTAL_LEN as int),
                        node.unproved_hash@,
                        node.proved_is_right,
                        pi.take(QUERY2_TOTAL_LEN as int),
                    )
                    &&& pi.subrange(QUERY2_TOTAL_LEN as int, QUERY2_TOTAL_LEN as int + 4)
                        == crate::circuit_set::set_digest_of(self.set.digests@)
                },
                CircuitInput::FullNode(left, right) => {
                    let pi = crate::bundle::encoded_public_inputs(r->Ok_0@);
                    &&& pi.len() == QUERY2_TOTAL_LEN + 4
                    &&& full_inner_output(
                        left.proof.public_inputs@.take(QUERY2_TOTAL_LEN as int),
                        right.proof.public_inputs@.take(QUERY2_TOTAL_LEN as int),
                        pi.take(QUERY2_TOTAL_LEN as int),
                    )
                    &&& pi.subrange(QUERY2_TOTAL_LEN as int, QUERY2_TOTAL_LEN as int + 4)
                        == crate::circuit_set::set_digest_of(self.set.digests@)
                },
            },
    {
        let bundle = match input {
            CircuitInput::Leaf(leaf) => {
                let pi = leaf.build()?;
                let b = self.set.generate_proof(&self.leaf_circuit, &Vec::new(), pi.inputs)?;
                proof {
                    assert(b.proof.public_inputs@.take(QUERY2_TOTAL_LEN as int) =~= pi.inputs@);
                    assert(b.proof.public_inputs@.subrange(
                        QUERY2_TOTAL_LEN as int,
                        QUERY2_TOTAL_LEN as int + 4,
                    ) =~= crate::circuit_set::set_digest_of(self.set.digests@));
                }
                b
            }
            CircuitInput::PartialNode(node, child) => {
                if child.proof.public_inputs.len() < QUERY2_TOTAL_LEN {
                    return Err(ProofError::BadPublicInputLength);
                }
                let ghost child_vk = child.vk@;
                let child_pi = PublicInputs::from_prefix(child.proof.public_inputs.as_slice());
                let pi = node.build(&child_pi);
                let mut children: Vec<ProofWithVK> = Vec::new();
                children.push(child);
                proof {
                    assert(children@[0].vk@ == child_vk);
                }
                let b = self.set.generate_proof(
                    &self.partial_node_circuit,
                    &children,
                    pi.inputs,
                )?;
                proof {
                    assert(self.set.contains_digest(child_vk));
                    assert(b.proof.public_inputs@.take(QUERY2_TOTAL_LEN as int) =~= pi.inputs@);
                    assert(b.proof.public_inputs@.subrange(
                        QUERY2_TOTAL_LEN as int,
                        QUERY2_TOTAL_LEN as int + 4,
                    ) =~= crate::circuit_set::set_digest_of(self.set.digests@));
                }
                b
            }
            CircuitInput::FullNode(left, right) => {
                if left.proof.public_inputs.len() < QUERY2_TOTAL_LEN
                    || right.proof.public_inputs.len() < QUERY2_TOTAL_LEN {
                    return Err(ProofError::BadPublicInputLength);
                }
                let ghost left_vk = left.vk@;
                let ghost right_vk = right.vk@;
                let left_pi = PublicInputs::from_prefix(left.proof.public_inputs.as_slice());
                let right_pi = PublicInputs::from_prefix(right.proof.public_inputs.as_slice());
                let pi = FullInnerNodeCircuit::build(&left_pi, &right_pi)?;
                let mut children: Vec<ProofWithVK> = Vec::new();
                children.push(left);
                children.push(right);
                proof {
                    assert(children@[0].vk@ == left_vk);
                    assert(children@[1].vk@ == right_vk);
                }
                let b = self.set.generate_proof(
                    &self.full_node_circuit,
                    &children,
                    pi.inputs,
                )?;
                proof {
                    assert(self.set.contains_digest(left_vk));
                    assert(self.set.contains_digest(right_vk));
                    assert(b.proof.public_inputs@.take(QUERY2_TOTAL_LEN as int) =~= pi.inputs@);
                    assert(b.proof.public_inputs@.subrange(
                        QUERY2_TOTAL_LEN as int,
                        QUERY2_TOTAL_LEN as int + 4,
                    ) =~= crate::circuit_set::set_digest_of(self.set.digests@));
                }
                b
            }
        };
        proof {
            crate::bundle::lemma_bundle_round_trip(bundle);
            crate::bundle::lemma_encoded_vk(bundle);
            crate::bundle::lemma_encoded_pis(bundle);
        }
        Ok(bundle.serialize())
    }
}

} // verus!
