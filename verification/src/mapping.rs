//! Trie-node circuits for proving one mapping slot through a
//! Merkle-Patricia trie: a leaf, an extension, and branch circuits of a few
//! fixed arities.
//!
//! The public-input layout of this family is, in order: the 64 key nibbles,
//! the key pointer, the number of aggregated entries, the mapping slot, the
//! per-query digest (4 words) and the node's root commitment (4 words).
//! The pointer counts the nibbles consumed so far: a leaf exposes 0, an
//! extension advances it by its prefix length, a branch by exactly one.

use vstd::prelude::*;

use crate::bundle::{ProofInputSerialized, ProofWithVK};
use crate::circuit_set::RecursiveCircuits;
use crate::digest::{digest_of_words, digest_sum_prefix, sum_digests_prefix, Digest, GOLDILOCKS_P};
use crate::erc20_storage::{derive_circuit_digest, slice_range};
use crate::errors::ProofError;
use crate::hash::{bytes_node_hash, bytes_node_hash_of, keccak_of, keccak256_bytes};
use crate::pack::{left_pad32, pack_bytes32};

verus! {

/// Number of nibbles in a trie key.
pub const KEY_NIBBLES: usize = 64;

/// Total word length of this family's public inputs.
pub const MAPPING_TOTAL_LEN: usize = 75;

/// Largest accepted byte length of a branch or extension node.
pub const MAX_BRANCH_NODE_LEN: usize = 532;

/// Largest accepted byte length of a leaf node.
pub const MAX_LEAF_NODE_LEN: usize = 136;

/// The supported branch arities, smallest first.
pub const BRANCH_ARITIES: [usize; 3] = [2, 9, 16];

/// The public inputs of a trie-node proof.
#[derive(Clone, Debug)]
pub struct MappingPublicInputs {
    pub inputs: Vec<u64>,
}

impl MappingPublicInputs {
    /// The layout has its declared length.
    pub open spec fn wf(self) -> bool {
        self.inputs@.len() == MAPPING_TOTAL_LEN
    }

    /// Total length of the layout.
    pub fn total_len() -> (r: usize)
        ensures
            r == MAPPING_TOTAL_LEN,
    {
        MAPPING_TOTAL_LEN
    }

    /// Read a layout from a public-input slice of exactly the declared
    /// length; a slice of any other length is a caller error the layout
    /// refuses.
    pub fn from_slice(arr: &[u64]) -> (r: MappingPublicInputs)
        requires
            arr@.len() == MAPPING_TOTAL_LEN,
        ensures
            r.inputs@ == arr@,
            r.wf(),
    {
        let r = Self::from_prefix(arr);
        proof {
            assert(arr@.take(MAPPING_TOTAL_LEN as int) =~= arr@);
        }
        r
    }

    /// Read a layout off the front of a longer word vector, as when a
    /// proof's public inputs carry the set digest after the layout.
    pub(crate) fn from_prefix(arr: &[u64]) -> (r: MappingPublicInputs)
        requires
            arr@.len() >= MAPPING_TOTAL_LEN,
        ensures
            r.inputs@ == arr@.take(MAPPING_TOTAL_LEN as int),
            r.wf(),
    {
        let mut inputs: Vec<u64> = Vec::new();
        let mut i: usize = 0;
        while i < MAPPING_TOTAL_LEN
            invariant
                i <= MAPPING_TOTAL_LEN,
                arr@.len() >= MAPPING_TOTAL_LEN,
                inputs@.len() == i,
                forall|j: int| 0 <= j < i ==> inputs@[j] == arr@[j],
            decreases MAPPING_TOTAL_LEN - i,
        {
            inputs.push(arr[i]);
            i = i + 1;
        }
        proof {
            assert(inputs@ =~= arr@.take(MAPPING_TOTAL_LEN as int));
        }
        MappingPublicInputs { inputs }
    }

    /// The key nibbles and the pointer, as the trie-key state.
    pub fn mpt_key_info(&self) -> (r: (Vec<u64>, u64))
        requires
            self.wf(),
        ensures
            r.0@ == self.inputs@.subrange(0, 64),
            r.1 == self.inputs@[64],
    {
        (slice_range(&self.inputs, 0, 64), self.inputs[64])
    }

    /// The number of aggregated entries.
    pub fn n(&self) -> (r: u64)
        requires
            self.wf(),
        ensures
            r == self.inputs@[65],
    {
        self.inputs[65]
    }

    /// The mapping slot this proof is about.
    pub fn mapping_slot(&self) -> (r: u64)
        requires
            self.wf(),
        ensures
            r == self.inputs@[66],
    {
        self.inputs[66]
    }

    /// The per-query digest words.
    pub fn accumulator(&self) -> (r: Vec<u64>)
        requires
            self.wf(),
        ensures
            r@ == self.inputs@.subrange(67, 71),
    {
        slice_range(&self.inputs, 67, 71)
    }

    /// The node's root commitment words.
    pub fn root(&self) -> (r: Vec<u64>)
        requires
            self.wf(),
        ensures
            r@ == self.inputs@.subrange(71, 75),
    {
        slice_range(&self.inputs, 71, 75)
    }

    /// The digest field read as a group element; fails if a coordinate is
    /// not reduced.
    pub fn digest_value(&self) -> (r: Option<Digest>)
        requires
            self.wf(),
        ensures
            r is Some <==> (forall|j: int| 0 <= j < 4
                ==> #[trigger] self.inputs@.subrange(67, 71)[j] < GOLDILOCKS_P),
            r is Some ==> r->0.wf() && r->0.coords@ == self.inputs@.subrange(67, 71),
    {
        let w0: u64 = self.inputs[67];
        let w1: u64 = self.inputs[68];
        let w2: u64 = self.inputs[69];
        let w3: u64 = self.inputs[70];
        if w0 < GOLDILOCKS_P && w1 < GOLDILOCKS_P && w2 < GOLDILOCKS_P && w3 < GOLDILOCKS_P {
            let d = Digest { coords: [w0, w1, w2, w3] };
            proof {
                assert(d.coords@ =~= self.inputs@.subrange(67, 71));
            }
            Some(d)
        } else {
            proof {
                assert(self.inputs@.subrange(67, 71)[0] == w0);
                assert(self.inputs@.subrange(67, 71)[1] == w1);
                assert(self.inputs@.subrange(67, 71)[2] == w2);
                assert(self.inputs@.subrange(67, 71)[3] == w3);
            }
            None
        }
    }

    /// Assemble a layout from its parts.
    pub fn from_parts(
        key: &Vec<u64>,
        pointer: u64,
        n: u64,
        slot: u64,
        digest: &Digest,
        root: &[u64; 4],
    ) -> (r: MappingPublicInputs)
        requires
            key@.len() == 64,
        ensures
            r.wf(),
            r.inputs@.subrange(0, 64) == key@,
            r.inputs@[64] == pointer,
            r.inputs@[65] == n,
            r.inputs@[66] == slot,
            r.inputs@.subrange(67, 71) == digest.coords@,
            r.inputs@.subrange(71, 75) == root@,
    {
        let mut inputs: Vec<u64> = Vec::new();
        let mut i: usize = 0;
        while i < 64
            invariant
                i <= 64,
                key@.len() == 64,
                inputs@.len() == i,
                forall|j: int| 0 <= j < i ==> inputs@[j] == key@[j],
            decreases 64 - i,
        {
            inputs.push(key[i]);
            i = i + 1;
        }
        inputs.push(pointer);
        inputs.push(n);
        inputs.push(slot);
        inputs.push(digest.coords[0]);
        inputs.push(digest.coords[1]);
        inputs.push(digest.coords[2]);
        inputs.push(digest.coords[3]);
        inputs.push(root[0]);
        inputs.push(root[1]);
        inputs.push(root[2]);
        inputs.push(root[3]);
        let out = MappingPublicInputs { inputs };
        proof {
            assert(out.inputs@.subrange(0, 64) =~= key@);
            assert(out.inputs@.subrange(67, 71) =~= digest.coords@);
            assert(out.inputs@.subrange(71, 75) =~= root@);
        }
        out
    }
}

/// The nibble decomposition of a 32-byte string: two nibbles per byte, high
/// nibble first.
pub open spec fn nibbles_of(bytes: Seq<u8>) -> Seq<u64> {
    Seq::new(64, |i: int| if i % 2 == 0 {
        (bytes[i / 2] / 16) as u64
    } else {
        (bytes[i / 2] % 16) as u64
    })
}

/// The trie key of a mapping entry: the hash of the left-padded mapping key
/// followed by the left-padded slot, decomposed into nibbles.
pub open spec fn mpt_key_of(mapping_key: Seq<u8>, slot: u64) -> Seq<u64> {
    nibbles_of(keccak_of(mpt_location_preimage(mapping_key, slot)))
}

/// The hashed location preimage: the mapping key left-padded to 32 bytes,
/// then the slot as a left-padded 32-byte value.
pub open spec fn mpt_location_preimage(mapping_key: Seq<u8>, slot: u64) -> Seq<u8> {
    left_pad32_of(mapping_key) + left_pad32_of(le8(slot))
}

/// The 8 little-endian bytes of a word.
pub open spec fn le8(w: u64) -> Seq<u8> {
    Seq::new(8, |k: int| crate::hash::byte_of_word(w, k))
}

/// A byte string left-padded to 32 bytes.
pub open spec fn left_pad32_of(bytes: Seq<u8>) -> Seq<u8> {
    Seq::new(32, |i: int| if i < 32 - bytes.len() {
        0u8
    } else {
        bytes[i - (32 - bytes.len())]
    })
}

/// Compute the trie key of a mapping entry as nibbles.
fn compute_mpt_key(mapping_key: &Vec<u8>, slot: u64) -> (r: Vec<u64>)
    requires
        mapping_key@.len() <= 32,
    ensures
        r@ == mpt_key_of(mapping_key@, slot),
        r@.len() == 64,
{
    let padded_key = match left_pad32(mapping_key.as_slice()) {
        Some(p) => p,
        None => {
            proof {
                assert(false);
            }
            Vec::new()
        }
    };
    let mut slot_bytes: Vec<u8> = Vec::new();
    let mut x: u64 = slot;
    let mut k: usize = 0;
    proof {
        vstd::arithmetic::power2::lemma2_to64();
        vstd::arithmetic::div_mod::lemma_fundamental_div_mod_converse(
            slot as int,
            1,
            slot as int,
            0,
        );
    }
    while k < 8
        invariant
            k <= 8,
            slot_bytes@.len() == k,
            x == (slot as int) / (vstd::arithmetic::power2::pow2((8 * k) as nat) as int),
            forall|j: int| 0 <= j < k ==> slot_bytes@[j] == crate::hash::byte_of_word(slot, j),
        decreases 8 - k,
    {
        let b: u8 = (x % 256) as u8;
        proof {
            vstd::arithmetic::power2::lemma2_to64();
            vstd::arithmetic::power2::lemma_pow2_pos((8 * k) as nat);
            vstd::arithmetic::div_mod::lemma_div_denominator(
                slot as int,
                vstd::arithmetic::power2::pow2((8 * k) as nat) as int,
                256,
            );
            vstd::arithmetic::power2::lemma_pow2_adds((8 * k) as nat, 8);
        }
        slot_bytes.push(b);
        x = x / 256;
        k = k + 1;
    }
    proof {
        assert(slot_bytes@ =~= le8(slot));
    }
    let padded_slot = match left_pad32(slot_bytes.as_slice()) {
        Some(p) => p,
        None => {
            proof {
                assert(false);
            }
            Vec::new()
        }
    };
    let mut preimage = padded_key;
    let mut m: usize = 0;
    let ghost first = preimage@;
    while m < 32
        invariant
            m <= 32,
            padded_slot@.len() == 32,
            preimage@.len() == 32 + m,
            preimage@.take(32) == first,
            forall|j: int| 0 <= j < m ==> #[trigger] preimage@[32 + j] == padded_slot@[j],
        decreases 32 - m,
    {
        let b: u8 = padded_slot[m];
        preimage.push(b);
        proof {
            assert(preimage@.take(32) =~= first);
        }
        m = m + 1;
    }
    proof {
        assert(first =~= left_pad32_of(mapping_key@));
        assert(padded_slot@ =~= left_pad32_of(le8(slot)));
        assert forall|j: int| 0 <= j < 64 implies preimage@[j] == (first + padded_slot@)[j] by {
            if j < 32 {
                assert(preimage@[j] == preimage@.take(32)[j]);
            } else {
                assert(preimage@[32 + (j - 32)] == padded_slot@[j - 32]);
            }
        }
        assert(preimage@ =~= first + padded_slot@);
    }
    let hashed = keccak256_bytes(preimage.as_slice());
    let mut nibbles: Vec<u64> = Vec::new();
    let mut i: usize = 0;
    while i < 32
        invariant
            i <= 32,
            hashed@.len() == 32,
            nibbles@.len() == 2 * i,
            forall|j: int| 0 <= j < 2 * i ==> nibbles@[j] == nibbles_of(hashed@)[j],
        decreases 32 - i,
    {
        let b: u8 = hashed[i];
        let ghost pre = nibbles@;
        nibbles.push((b / 16) as u64);
        nibbles.push((b % 16) as u64);
        proof {
            assert forall|j: int| 0 <= j < 2 * (i + 1)
                implies nibbles@[j] == nibbles_of(hashed@)[j] by {
                if j < 2 * i {
                    assert(nibbles@[j] == pre[j]);
                } else {
                    assert(j / 2 == i && (j == 2 * i || j == 2 * i + 1));
                }
            }
        }
        i = i + 1;
    }
    proof {
        assert(nibbles@ =~= mpt_key_of(mapping_key@, slot));
    }
    nibbles
}

/// The layout a trie leaf exposes for its witness: the full derived key
/// with nothing consumed, one aggregated entry, the key's digest
/// contribution, and the node's commitment.
pub open spec fn mapping_leaf_output(c: LeafCircuit, pi: Seq<u64>) -> bool {
    &&& pi.len() == MAPPING_TOTAL_LEN
    &&& pi.subrange(0, 64) == mpt_key_of(c.mapping_key@, c.slot)
    &&& pi[64] == 0u64
    &&& pi[65] == 1u64
    &&& pi[66] == c.slot
    &&& pi.subrange(67, 71) == leaf_digest_for_mapping(c.mapping_key@, c.slot).coords@
    &&& pi.subrange(71, 75) == bytes_node_hash_of(c.node@)
}

/// The layout an extension exposes over its child's words: the pointer
/// advanced by the prefix length, the node's own commitment, and every
/// other field passed through.
pub open spec fn extension_output(
    child: Seq<u64>,
    prefix_nibbles: u64,
    node: Seq<u8>,
    pi: Seq<u64>,
) -> bool {
    &&& pi.len() == MAPPING_TOTAL_LEN
    &&& pi.subrange(0, 64) == child.subrange(0, 64)
    &&& pi[64] == child[64] + prefix_nibbles
    &&& pi[65] == child[65]
    &&& pi[66] == child[66]
    &&& pi.subrange(67, 71) == child.subrange(67, 71)
    &&& pi.subrange(71, 75) == bytes_node_hash_of(node)
}

/// The layout a branch exposes over its children's words: one more nibble
/// consumed, the genuine children's digests and counts accumulated with
/// padding excluded, and the node's own commitment.
pub open spec fn branch_output(
    children: Seq<Seq<u64>>,
    k: int,
    node: Seq<u8>,
    pi: Seq<u64>,
) -> bool {
    &&& pi.len() == MAPPING_TOTAL_LEN
    &&& pi.subrange(0, 64) == children[0].subrange(0, 64)
    &&& pi[64] == children[0][64] + 1
    &&& pi[65] == sum_of_counts(children, k)
    &&& pi[66] == children[0][66]
    &&& pi.subrange(67, 71) == digest_sum_prefix(children_digests(children), k).coords@
    &&& pi.subrange(71, 75) == bytes_node_hash_of(node)
}

/// Witness data of a trie leaf: the raw node bytes, the mapping slot, and
/// the mapping key the leaf holds.
#[derive(Clone, Debug)]
pub struct LeafCircuit {
    pub node: Vec<u8>,
    pub slot: u64,
    pub mapping_key: Vec<u8>,
}

impl LeafCircuit {
    /// Build a leaf's public inputs: the full key as nibbles with pointer
    /// zero, one aggregated entry, the key's digest contribution, and the
    /// node's commitment.
    pub fn build(&self) -> (r: Result<MappingPublicInputs, ProofError>)
        ensures
            r is Ok <==> self.node@.len() <= MAX_LEAF_NODE_LEN && self.mapping_key@.len() <= 32,
            r is Ok ==> r->Ok_0.wf() && mapping_leaf_output(*self, r->Ok_0.inputs@),
    {
        if self.node.len() > MAX_LEAF_NODE_LEN {
            return Err(ProofError::NodeTooLong);
        }
        if self.mapping_key.len() > 32 {
            return Err(ProofError::BadPublicInputLength);
        }
        let key_nibbles = compute_mpt_key(&self.mapping_key, self.slot);
        let padded = match left_pad32(self.mapping_key.as_slice()) {
            Some(p) => p,
            None => {
                proof {
                    assert(false);
                }
                Vec::new()
            }
        };
        let packed = pack_bytes32(&padded);
        let digest = crate::digest::digest_from_words(&packed);
        let root = bytes_node_hash(&self.node);
        proof {
            assert(padded@ =~= left_pad32_of(self.mapping_key@));
            assert(packed@ =~= packed_mapping_key_words(self.mapping_key@));
        }
        Ok(MappingPublicInputs::from_parts(&key_nibbles, 0u64, 1u64, self.slot, &digest, &root))
    }
}

/// The packed words of a left-padded mapping key.
pub open spec fn packed_mapping_key_words(mapping_key: Seq<u8>) -> Seq<u64> {
    Seq::new(8, |i: int| crate::pack::packed_bytes_word(left_pad32_of(mapping_key), i))
}

/// The digest contribution of one mapping entry: the digest of its packed
/// key words.
pub open spec fn leaf_digest_for_mapping(mapping_key: Seq<u8>, slot: u64) -> Digest {
    digest_of_words(packed_mapping_key_words(mapping_key))
}

/// Witness data of an extension node: the raw node bytes and how many key
/// nibbles its prefix consumes.
#[derive(Clone, Debug)]
pub struct ExtensionNodeCircuit {
    pub node: Vec<u8>,
    pub prefix_nibbles: u64,
}

impl ExtensionNodeCircuit {
    /// Build an extension's public inputs over its child: the pointer
    /// advances by the prefix length without exceeding the key, the root is
    /// the node's commitment, and everything else passes through.
    pub fn build(&self, child: &MappingPublicInputs) -> (r: Result<
        MappingPublicInputs,
        ProofError,
    >)
        requires
            child.wf(),
        ensures
            r is Ok <==> self.node@.len() <= MAX_BRANCH_NODE_LEN
                && child.inputs@[64] + self.prefix_nibbles <= 64,
            r is Ok ==> r->Ok_0.wf()
                && extension_output(child.inputs@, self.prefix_nibbles, self.node@, r->Ok_0.inputs@),
    {
        if self.node.len() > MAX_BRANCH_NODE_LEN {
            return Err(ProofError::NodeTooLong);
        }
        let ptr: u64 = child.inputs[64];
        if self.prefix_nibbles > 64 || ptr > 64 - self.prefix_nibbles {
            return Err(ProofError::MismatchedChildKeys);
        }
        let key = slice_range(&child.inputs, 0, 64);
        let root = bytes_node_hash(&self.node);
        let mut inputs: Vec<u64> = Vec::new();
        let mut i: usize = 0;
        while i < 64
            invariant
                i <= 64,
                child.wf(),
                key@.len() == 64,
                inputs@.len() == i,
                forall|j: int| 0 <= j < i ==> inputs@[j] == child.inputs@[j],
            decreases 64 - i,
        {
            inputs.push(child.inputs[i]);
            i = i + 1;
        }
        inputs.push(ptr + self.prefix_nibbles);
        inputs.push(child.inputs[65]);
        inputs.push(child.inputs[66]);
        inputs.push(child.inputs[67]);
        inputs.push(child.inputs[68]);
        inputs.push(child.inputs[69]);
        inputs.push(child.inputs[70]);
        inputs.push(root[0]);
        inputs.push(root[1]);
        inputs.push(root[2]);
        inputs.push(root[3]);
        let out = MappingPublicInputs { inputs };
        proof {
            assert(out.inputs@.subrange(0, 64) =~= child.inputs@.subrange(0, 64));
            assert(out.inputs@.subrange(67, 71) =~= child.inputs@.subrange(67, 71));
            assert(out.inputs@.subrange(71, 75) =~= root@);
        }
        Ok(out)
    }
}

/// The word vectors of a child sequence, in order.
pub open spec fn children_words(children: Seq<MappingPublicInputs>) -> Seq<Seq<u64>> {
    Seq::new(children.len(), |i: int| children[i].inputs@)
}

/// Whether the first `k` children of a family agree on the trie-key state:
/// equal pointers below the key length, equal mapping slots, and equal key
/// prefixes up to the pointer.
pub open spec fn children_agree(children: Seq<Seq<u64>>, k: int) -> bool {
    forall|i: int| 0 < i < k ==> {
        &&& (#[trigger] children[i])[64] == children[0][64]
        &&& children[i][64] < 64
        &&& children[i][66] == children[0][66]
        &&& children[i].subrange(0, children[0][64] as int)
            == children[0].subrange(0, children[0][64] as int)
    }
}

/// The digest field of one child's words is reduced below the prime.
pub open spec fn digest_reduced(child: Seq<u64>) -> bool {
    forall|j: int| 0 <= j < 4 ==> #[trigger] child.subrange(67, 71)[j] < GOLDILOCKS_P
}

/// Everything a branch demands of its first `k` children's words and its
/// node bytes: a pointer with one nibble to spare, agreeing trie-key
/// states, reduced digest fields, a count sum that fits its word, and a
/// node within the configured maximum.
pub open spec fn branch_success(children: Seq<Seq<u64>>, k: int, node: Seq<u8>) -> bool {
    &&& node.len() <= MAX_BRANCH_NODE_LEN
    &&& children[0][64] < 64
    &&& children_agree(children, k)
    &&& (forall|i: int| 0 <= i < k ==> digest_reduced(#[trigger] children[i]))
    &&& sum_of_counts(children, k) <= u64::MAX
}

/// The digests of a child sequence, in order.
pub open spec fn children_digests(children: Seq<Seq<u64>>) -> Seq<Digest> {
    Seq::new(children.len(), |i: int| Digest {
        coords: [children[i][67], children[i][68], children[i][69], children[i][70]],
    })
}

/// Witness data of a branch node: its bytes and how many of the supplied
/// child proofs are genuine rather than padding.
pub struct BranchCircuit {
    pub node: Vec<u8>,
    pub nb_proofs: usize,
}

impl BranchCircuit {
    /// Build a branch's public inputs over its children.  Only the first
    /// `nb_proofs` children are genuine: the exposed digest accumulates
    /// exactly those, the entry count sums exactly those, and any padding
    /// children beyond them are excluded rather than double counted.  The
    /// pointer advances by the one nibble the branch consumes.
    pub fn build(&self, children: &Vec<MappingPublicInputs>) -> (r: Result<
        MappingPublicInputs,
        ProofError,
    >)
        requires
            forall|i: int| 0 <= i < children@.len() ==> (#[trigger] children@[i]).wf(),
            1 <= self.nb_proofs <= children@.len(),
        ensures
            r is Ok <==> branch_success(
                children_words(children@),
                self.nb_proofs as int,
                self.node@,
            ),
            r is Ok ==> r->Ok_0.wf()
                && branch_output(
                children_words(children@),
                self.nb_proofs as int,
                self.node@,
                r->Ok_0.inputs@,
            ),
    {
        let ghost cw = children_words(children@);
        let ghost k = self.nb_proofs as int;
        if self.node.len() > MAX_BRANCH_NODE_LEN {
            return Err(ProofError::NodeTooLong);
        }
        let first_ptr: u64 = children[0].inputs[64];
        proof {
            assert(cw[0] == children@[0].inputs@);
        }
        if first_ptr >= 64 {
            return Err(ProofError::MismatchedChildKeys);
        }
        let first_slot: u64 = children[0].inputs[66];
        let first_prefix = slice_range(&children[0].inputs, 0, first_ptr as usize);
        let mut digests: Vec<Digest> = Vec::new();
        let mut count: u64 = 0;
        let mut i: usize = 0;
        while i < self.nb_proofs
            invariant
                i <= self.nb_proofs <= children@.len(),
                forall|t: int| 0 <= t < children@.len() ==> (#[trigger] children@[t]).wf(),
                cw == children_words(children@),
                k == self.nb_proofs as int,
                first_ptr == children@[0].inputs@[64],
                first_ptr < 64,
                first_slot == children@[0].inputs@[66],
                first_prefix@ == children@[0].inputs@.subrange(0, first_ptr as int),
                children_agree(cw, i as int),
                forall|t: int| 0 <= t < i ==> digest_reduced(#[trigger] cw[t]),
                digests@.len() == i,
                forall|t: int| 0 <= t < i
                    ==> #[trigger] digests@[t] == children_digests(cw)[t]
                        && digests@[t].wf(),
                count == sum_of_counts(cw, i as int),
            decreases self.nb_proofs - i,
        {
            let child = &children[i];
            proof {
                assert(cw[i as int] == children@[i as int].inputs@);
            }
            if i > 0 {
                if child.inputs[64] != first_ptr || child.inputs[66] != first_slot {
                    proof {
                        lemma_refute_agreement(cw, k, i as int);
                    }
                    return Err(ProofError::MismatchedChildKeys);
                }
                let prefix = slice_range(&child.inputs, 0, first_ptr as usize);
                if !crate::erc20_block::word_vecs_equal(&prefix, &first_prefix) {
                    proof {
                        lemma_refute_agreement(cw, k, i as int);
                    }
                    return Err(ProofError::MismatchedChildKeys);
                }
            }
            let d = match child.digest_value() {
                Some(d) => d,
                None => {
                    proof {
                        let w = i as int;
                        assert(!digest_reduced(cw[w]));
                        assert(!(forall|t: int| 0 <= t < k
                            ==> digest_reduced(#[trigger] cw[t])));
                    }
                    return Err(ProofError::BadPublicInputLength);
                }
            };
            let n: u64 = child.inputs[65];
            if n > u64::MAX - count {
                proof {
                    assert(sum_of_counts(cw, i + 1)
                        == sum_of_counts(cw, i as int) + cw[i as int][65]);
                    lemma_sum_of_counts_monotone(cw, i + 1, k);
                }
                return Err(ProofError::ResultOverflow);
            }
            count = count + n;
            digests.push(d);
            proof {
                assert(digests@[i as int].coords =~= children_digests(cw)[i as int].coords);
                assert(digests@[i as int] == children_digests(cw)[i as int]);
            }
            i = i + 1;
        }
        let total = sum_digests_prefix(&digests, self.nb_proofs);
        proof {
            lemma_digest_sum_same_prefix(digests@, children_digests(cw), k);
        }
        let root = bytes_node_hash(&self.node);
        let key = slice_range(&children[0].inputs, 0, 64);
        let out = MappingPublicInputs::from_parts(
            &key,
            first_ptr + 1,
            count,
            first_slot,
            &total,
            &root,
        );
        Ok(out)
    }
}

/// The sum of the entry counts of the first `k` children.
pub open spec fn sum_of_counts(children: Seq<Seq<u64>>, k: int) -> int
    decreases k,
{
    if k <= 0 {
        0
    } else {
        sum_of_counts(children, k - 1) + children[k - 1][65]
    }
}

/// Every child's count is nonnegative, so the partial sums only grow.
proof fn lemma_sum_of_counts_monotone(children: Seq<Seq<u64>>, a: int, b: int)
    requires
        0 <= a <= b,
    ensures
        sum_of_counts(children, a) <= sum_of_counts(children, b),
    decreases b - a,
{
    if a < b {
        lemma_sum_of_counts_monotone(children, a, b - 1);
    }
}

/// Refuting child agreement: a witness index where the trie-key state
/// disagrees falsifies the whole-prefix agreement.
proof fn lemma_refute_agreement(children: Seq<Seq<u64>>, k: int, w: int)
    requires
        0 < w < k,
        !({
            &&& children[w][64] == children[0][64]
            &&& children[w][64] < 64
            &&& children[w][66] == children[0][66]
            &&& children[w].subrange(0, children[0][64] as int)
                == children[0].subrange(0, children[0][64] as int)
        }),
    ensures
        !children_agree(children, k),
{
    assert(!(forall|i: int| 0 < i < k ==> {
        &&& (#[trigger] children[i])[64] == children[0][64]
        &&& children[i][64] < 64
        &&& children[i][66] == children[0][66]
        &&& children[i].subrange(0, children[0][64] as int)
            == children[0].subrange(0, children[0][64] as int)
    }));
}

/// Two digest sequences agreeing on a prefix have the same prefix sum.
proof fn lemma_digest_sum_same_prefix(a: Seq<Digest>, b: Seq<Digest>, k: int)
    requires
        0 <= k <= a.len(),
        k <= b.len(),
        forall|i: int| 0 <= i < k ==> a[i] == b[i],
    ensures
        digest_sum_prefix(a, k) == digest_sum_prefix(b, k),
    decreases k,
{
    if k > 0 {
        lemma_digest_sum_same_prefix(a, b, k - 1);
    }
}

/// The raw bytes of a trie node under proof.
#[derive(Clone, Debug)]
pub struct InputNode {
    pub node: Vec<u8>,
}

/// Inputs to proof generation in the trie family.
pub enum CircuitInput {
    Leaf(LeafCircuit),
    Extension(u64, ProofInputSerialized<InputNode>),
    Branch(ProofInputSerialized<InputNode>),
}

impl CircuitInput {
    /// Input for proving a leaf trie node.
    pub fn new_leaf(node: Vec<u8>, slot: u64, mapping_key: Vec<u8>) -> (r: CircuitInput)
        ensures
            r == CircuitInput::Leaf(LeafCircuit { node, slot, mapping_key }),
    {
        CircuitInput::Leaf(LeafCircuit { node, slot, mapping_key })
    }

    /// Input for proving an extension trie node whose prefix consumes the
    /// given number of nibbles.
    pub fn new_extension(node: Vec<u8>, prefix_nibbles: u64, child_proof: Vec<u8>) -> (r:
        CircuitInput)
        ensures
            r matches CircuitInput::Extension(p, ext) ==> p == prefix_nibbles
                && ext.input.node@ == node@
                && ext.serialized_child_proofs@.len() == 1
                && ext.serialized_child_proofs@[0]@ == child_proof@,
            r is Extension,
    {
        let mut serialized_child_proofs: Vec<Vec<u8>> = Vec::new();
        serialized_child_proofs.push(child_proof);
        CircuitInput::Extension(
            prefix_nibbles,
            ProofInputSerialized { input: InputNode { node }, serialized_child_proofs },
        )
    }

    /// Input for proving a branch trie node over its child proofs.
    pub fn new_branch(node: Vec<u8>, child_proofs: Vec<Vec<u8>>) -> (r: CircuitInput)
        ensures
            r == CircuitInput::Branch(ProofInputSerialized {
                input: InputNode { node },
                serialized_child_proofs: child_proofs,
            }),
    {
        CircuitInput::Branch(ProofInputSerialized {
            input: InputNode { node },
            serialized_child_proofs: child_proofs,
        })
    }
}

/// The smallest supported branch arity that fits `n` real children.
pub open spec fn spec_branch_arity(n: int) -> int {
    if n <= 2 {
        2
    } else if n <= 9 {
        9
    } else {
        16
    }
}

/// The smallest supported branch arity that fits the given number of real
/// children; none if there are no children or more than the largest arity.
/// Any supported arity at least the child count would be sound — padding
/// excludes the duplicates — so this is a capacity choice, not a
/// correctness requirement.
pub fn select_branch_arity(n: usize) -> (r: Option<usize>)
    ensures
        r is Some <==> 1 <= n <= 16,
        r is Some ==> r->0 == spec_branch_arity(n as int) && n <= r->0,
{
    if n == 0 || n > 16 {
        None
    } else if n <= 2 {
        Some(2)
    } else if n <= 9 {
        Some(9)
    } else {
        Some(16)
    }
}

/// The trie family's compiled branch circuits, one per supported arity.
pub struct BranchCircuits {
    pub b2: [u64; 4],
    pub b9: [u64; 4],
    pub b16: [u64; 4],
}

/// Every serialized child proof is acceptable: a well-formed encoding with
/// a full trie layout inside, whose verifier key belongs to the set.
pub open spec fn child_proofs_usable(set: RecursiveCircuits, proofs: Seq<Vec<u8>>) -> bool {
    &&& (forall|i: int| 0 <= i < proofs.len()
        ==> crate::bundle::valid_wire_bytes((#[trigger] proofs[i])@))
    &&& (forall|i: int| 0 <= i < proofs.len()
        ==> crate::bundle::encoded_public_inputs((#[trigger] proofs[i])@).len()
            >= MAPPING_TOTAL_LEN)
    &&& (forall|i: int| 0 <= i < proofs.len()
        ==> set.contains_digest(crate::bundle::encoded_vk((#[trigger] proofs[i])@)))
}

/// A bundle parsed from a child encoding carries that encoding's public
/// inputs and verifier-key words.
proof fn lemma_parsed_child(raw: Seq<Vec<u8>>, p: ProofWithVK, t: int)
    requires
        0 <= t < raw.len(),
        p.wire_words() == crate::bundle::words_of_bytes(raw[t]@),
    ensures
        p.vk@ == crate::bundle::encoded_vk(raw[t]@),
        p.proof.public_inputs@ == crate::bundle::encoded_public_inputs(raw[t]@),
{
    let ws = crate::bundle::words_of_bytes(raw[t]@);
    assert(ws.subrange(ws.len() - 4, ws.len() as int) =~= p.vk@);
    assert(ws.subrange(1, ws.len() - 4) =~= p.proof.public_inputs@);
}

/// The public-input words each serialized child proof of a branch decodes
/// to, truncated to the trie layout.
pub open spec fn parsed_branch_children(proofs: Seq<Vec<u8>>) -> Seq<Seq<u64>> {
    Seq::new(
        proofs.len(),
        |i: int| crate::bundle::encoded_public_inputs(proofs[i]@).take(MAPPING_TOTAL_LEN as int),
    )
}

/// The trie family's compiled circuits and their set.
pub struct PublicParameters {
    pub leaf_circuit: [u64; 4],
    pub ext_circuit: [u64; 4],
    pub branchs: BranchCircuits,
    pub set: RecursiveCircuits,
}

/// Build the trie circuits; the returned parameters are immutable and
/// shared by all subsequent proof generation, and their set holds exactly
/// the family's five circuits.
pub fn build_circuits_params() -> (r: PublicParameters)
    ensures
        r.set.digests@ == seq![
            r.leaf_circuit,
            r.ext_circuit,
            r.branchs.b2,
            r.branchs.b9,
            r.branchs.b16,
        ],
{
    PublicParameters::build()
}

/// Generate a proof for the circuit selected by `circuit_type`, with the
/// same obligations as [`PublicParameters::generate_proof`]: success is
/// owed exactly on acceptable inputs, and the bundle carries the selected
/// circuit's verifier key and the built node layout followed by the set
/// digest.
pub fn generate_proof(
    circuit_params: &PublicParameters,
    circuit_type: CircuitInput,
) -> (r: Result<Vec<u8>, ProofError>)
    ensures
        r is Ok ==> crate::bundle::valid_wire_bytes(r->Ok_0@),
        circuit_type matches CircuitInput::Leaf(leaf)
            ==> (r is Ok <==> leaf.node@.len() <= MAX_LEAF_NODE_LEN
                && leaf.mapping_key@.len() <= 32),
        circuit_type matches CircuitInput::Extension(prefix_nibbles, ext)
            ==> (r is Ok <==> {
                &&& child_proofs_usable(circuit_params.set, ext.serialized_child_proofs@)
                &&& ext.serialized_child_proofs@.len() == 1
                &&& ext.input.node@.len() <= MAX_BRANCH_NODE_LEN
                &&& parsed_branch_children(ext.serialized_child_proofs@)[0][64]
                    + prefix_nibbles <= 64
            }),
        circuit_type matches CircuitInput::Branch(branch)
            ==> (r is Ok <==> {
                &&& child_proofs_usable(circuit_params.set, branch.serialized_child_proofs@)
                &&& 1 <= branch.serialized_child_proofs@.len() <= 16
                &&& branch_success(
                    parsed_branch_children(branch.serialized_child_proofs@),
                    branch.serialized_child_proofs@.len() as int,
                    branch.input.node@,
                )
            }),
        r is Ok ==> crate::bundle::encoded_vk(r->Ok_0@) == match circuit_type {
            CircuitInput::Leaf(_) => circuit_params.leaf_circuit@,
            CircuitInput::Extension(_, _) => circuit_params.ext_circuit@,
            CircuitInput::Branch(branch) => {
                let n = branch.serialized_child_proofs@.len() as int;
                if n <= 2 {
                    circuit_params.branchs.b2@
                } else if n <= 9 {
                    circuit_params.branchs.b9@
                } else {
                    circuit_params.branchs.b16@
                }
            },
        },
        r is Ok ==> match circuit_type {
            CircuitInput::Leaf(leaf) => {
                let pi = crate::bundle::encoded_public_inputs(r->Ok_0@);
                &&& pi.len() == MAPPING_TOTAL_LEN + 4
                &&& mapping_leaf_output(leaf, pi.take(MAPPING_TOTAL_LEN as int))
                &&& pi.subrange(MAPPING_TOTAL_LEN as int, MAPPING_TOTAL_LEN as int + 4)
                    == crate::circuit_set::set_digest_of(circuit_params.set.digests@)
            },
            CircuitInput::Extension(prefix_nibbles, ext) => {
                let pi = crate::bundle::encoded_public_inputs(r->Ok_0@);
                &&& pi.len() == MAPPING_TOTAL_LEN + 4
                &&& extension_output(
                    parsed_branch_children(ext.serialized_child_proofs@)[0],
                    prefix_nibbles,
                    ext.input.node@,
                    pi.take(MAPPING_TOTAL_LEN as int),
                )
                &&& pi.subrange(MAPPING_TOTAL_LEN as int, MAPPING_TOTAL_LEN as int + 4)
                    == crate::circuit_set::set_digest_of(circuit_params.set.digests@)
            },
            CircuitInput::Branch(branch) => {
                let pi = crate::bundle::encoded_public_inputs(r->Ok_0@);
                &&& pi.len() == MAPPING_TOTAL_LEN + 4
                &&& branch_output(
                    parsed_branch_children(branch.serialized_child_proofs@),
                    branch.serialized_child_proofs@.len() as int,
                    branch.input.node@,
                    pi.take(MAPPING_TOTAL_LEN as int),
                )
                &&& pi.subrange(MAPPING_TOTAL_LEN as int, MAPPING_TOTAL_LEN as int + 4)
                    == crate::circuit_set::set_digest_of(circuit_params.set.digests@)
            },
        },
{
    circuit_params.generate_proof(circuit_type)
}

impl PublicParameters {
    /// Build the leaf, extension and branch circuits once; the set commits
    /// to exactly those five circuits and never changes afterwards.
    pub fn build() -> (r: PublicParameters)
        ensures
            r.set.digests@ == seq![
                r.leaf_circuit,
                r.ext_circuit,
                r.branchs.b2,
                r.branchs.b9,
                r.branchs.b16,
            ],
    {
        let leaf_circuit = derive_circuit_digest(10);
        let ext_circuit = derive_circuit_digest(11);
        let b2 = derive_circuit_digest(12);
        let b9 = derive_circuit_digest(13);
        let b16 = derive_circuit_digest(14);
        let mut digests: Vec<[u64; 4]> = Vec::new();
        digests.push(leaf_circuit);
        digests.push(ext_circuit);
        digests.push(b2);
        digests.push(b9);
        digests.push(b16);
        let r = PublicParameters {
            leaf_circuit,
            ext_circuit,
            branchs: BranchCircuits { b2, b9, b16 },
            set: RecursiveCircuits::new_from_circuit_digests(digests),
        };
        proof {
            assert(r.set.digests@ =~= seq![
                r.leaf_circuit,
                r.ext_circuit,
                r.branchs.b2,
                r.branchs.b9,
                r.branchs.b16,
            ]);
        }
        r
    }

    /// Generate a serialized proof for the requested trie node.  A branch
    /// selects the smallest supported arity that fits its real children and
    /// pads the remaining slots by repeating the first child proof; the
    /// padding entries are excluded from the aggregated digest and count.
    /// Success is owed exactly when the witness and every child proof are
    /// acceptable, and the returned bundle carries the verifier key of the
    /// circuit that was selected; the helper for each node kind states the
    /// exact conditions.
    pub fn generate_proof(&self, circuit_type: CircuitInput) -> (r: Result<Vec<u8>, ProofError>)
        ensures
            r is Ok ==> crate::bundle::valid_wire_bytes(r->Ok_0@),
            circuit_type matches CircuitInput::Leaf(leaf)
                ==> (r is Ok <==> leaf.node@.len() <= MAX_LEAF_NODE_LEN
                    && leaf.mapping_key@.len() <= 32),
            circuit_type matches CircuitInput::Extension(prefix_nibbles, ext)
                ==> (r is Ok <==> {
                    &&& child_proofs_usable(self.set, ext.serialized_child_proofs@)
                    &&& ext.serialized_child_proofs@.len() == 1
                    &&& ext.input.node@.len() <= MAX_BRANCH_NODE_LEN
                    &&& parsed_branch_children(ext.serialized_child_proofs@)[0][64]
                        + prefix_nibbles <= 64
                }),
            circuit_type matches CircuitInput::Branch(branch)
                ==> (r is Ok <==> {
                    &&& child_proofs_usable(self.set, branch.serialized_child_proofs@)
                    &&& 1 <= branch.serialized_child_proofs@.len() <= 16
                    &&& branch_success(
                        parsed_branch_children(branch.serialized_child_proofs@),
                        branch.serialized_child_proofs@.len() as int,
                        branch.input.node@,
                    )
                }),
            r is Ok ==> crate::bundle::encoded_vk(r->Ok_0@) == match circuit_type {
                CircuitInput::Leaf(_) => self.leaf_circuit@,
                CircuitInput::Extension(_, _) => self.ext_circuit@,
                CircuitInput::Branch(branch) => {
                    let n = branch.serialized_child_proofs@.len() as int;
                    if n <= 2 {
                        self.branchs.b2@
                    } else if n <= 9 {
                        self.branchs.b9@
                    } else {
                        self.branchs.b16@
                    }
                },
            },
            r is Ok ==> match circuit_type {
                CircuitInput::Leaf(leaf) => {
                    let pi = crate::bundle::encoded_public_inputs(r->Ok_0@);
                    &&& pi.len() == MAPPING_TOTAL_LEN + 4
                    &&& mapping_leaf_output(leaf, pi.take(MAPPING_TOTAL_LEN as int))
                    &&& pi.subrange(MAPPING_TOTAL_LEN as int, MAPPING_TOTAL_LEN as int + 4)
                        == crate::circuit_set::set_digest_of(self.set.digests@)
                },
                CircuitInput::Extension(prefix_nibbles, ext) => {
                    let pi = crate::bundle::encoded_public_inputs(r->Ok_0@);
                    &&& pi.len() == MAPPING_TOTAL_LEN + 4
                    &&& extension_output(
                        parsed_branch_children(ext.serialized_child_proofs@)[0],
                        prefix_nibbles,
                        ext.input.node@,
                        pi.take(MAPPING_TOTAL_LEN as int),
                    )
                    &&& pi.subrange(MAPPING_TOTAL_LEN as int, MAPPING_TOTAL_LEN as int + 4)
                        == crate::circuit_set::set_digest_of(self.set.digests@)
                },
                CircuitInput::Branch(branch) => {
                    let pi = crate::bundle::encoded_public_inputs(r->Ok_0@);
                    &&& pi.len() == MAPPING_TOTAL_LEN + 4
                    &&& branch_output(
                        parsed_branch_children(branch.serialized_child_proofs@),
                        branch.serialized_child_proofs@.len() as int,
                        branch.input.node@,
                        pi.take(MAPPING_TOTAL_LEN as int),
                    )
                    &&& pi.subrange(MAPPING_TOTAL_LEN as int, MAPPING_TOTAL_LEN as int + 4)
                        == crate::circuit_set::set_digest_of(self.set.digests@)
                },
            },
    {
        match circuit_type {
            CircuitInput::Leaf(leaf) => self.generate_leaf_proof(leaf),
            CircuitInput::Extension(prefix_nibbles, ext) => {
                self.generate_extension_proof(prefix_nibbles, ext)
            }
            CircuitInput::Branch(branch) => self.generate_branch_proof(branch),
        }
    }

    /// Generate a leaf proof; succeeds exactly when the leaf witness is
    /// acceptable, and the bundle carries the leaf circuit's key.
    pub fn generate_leaf_proof(&self, leaf: LeafCircuit) -> (r: Result<Vec<u8>, ProofError>)
        ensures
            r is Ok <==> leaf.node@.len() <= MAX_LEAF_NODE_LEN && leaf.mapping_key@.len() <= 32,
            r is Ok ==> crate::bundle::valid_wire_bytes(r->Ok_0@),
            r is Ok ==> crate::bundle::encoded_vk(r->Ok_0@) == self.leaf_circuit@,
            r is Ok ==> {
                let pi = crate::bundle::encoded_public_inputs(r->Ok_0@);
                &&& pi.len() == MAPPING_TOTAL_LEN + 4
                &&& mapping_leaf_output(leaf, pi.take(MAPPING_TOTAL_LEN as int))
                &&& pi.subrange(MAPPING_TOTAL_LEN as int, MAPPING_TOTAL_LEN as int + 4)
                    == crate::circuit_set::set_digest_of(self.set.digests@)
            },
    {
                let pi = leaf.build()?;
                proof {
                    assert(leaf.node@.len() <= MAX_LEAF_NODE_LEN);
                    assert(leaf.mapping_key@.len() <= 32);
                }
                let bundle = self.set.generate_proof(&self.leaf_circuit, &Vec::new(), pi.inputs)?;
                proof {
                    crate::bundle::lemma_bundle_round_trip(bundle);
                    crate::bundle::lemma_encoded_vk(bundle);
                    crate::bundle::lemma_encoded_pis(bundle);
                }
                let out = bundle.serialize();
                proof {
                    let enc = crate::bundle::encoded_public_inputs(out@);
                    assert(enc == bundle.proof.public_inputs@);
                    assert(enc.take(MAPPING_TOTAL_LEN as int) =~= pi.inputs@);
                    assert(enc.subrange(MAPPING_TOTAL_LEN as int, MAPPING_TOTAL_LEN as int + 4)
                        =~= crate::circuit_set::set_digest_of(self.set.digests@));
                    assert(mapping_leaf_output(leaf, enc.take(MAPPING_TOTAL_LEN as int)));
                }
                Ok(out)
    }

    /// Generate an extension proof over one serialized child; succeeds
    /// exactly when the child proof is acceptable and the advanced pointer
    /// stays within the key, and the bundle carries the extension circuit's
    /// key.
    pub fn generate_extension_proof(
        &self,
        prefix_nibbles: u64,
        ext: ProofInputSerialized<InputNode>,
    ) -> (r: Result<Vec<u8>, ProofError>)
        ensures
            r is Ok <==> {
                &&& child_proofs_usable(self.set, ext.serialized_child_proofs@)
                &&& ext.serialized_child_proofs@.len() == 1
                &&& ext.input.node@.len() <= MAX_BRANCH_NODE_LEN
                &&& parsed_branch_children(ext.serialized_child_proofs@)[0][64]
                    + prefix_nibbles <= 64
            },
            r is Ok ==> crate::bundle::valid_wire_bytes(r->Ok_0@),
            r is Ok ==> crate::bundle::encoded_vk(r->Ok_0@) == self.ext_circuit@,
            r is Ok ==> {
                let pi = crate::bundle::encoded_public_inputs(r->Ok_0@);
                &&& pi.len() == MAPPING_TOTAL_LEN + 4
                &&& extension_output(
                    parsed_branch_children(ext.serialized_child_proofs@)[0],
                    prefix_nibbles,
                    ext.input.node@,
                    pi.take(MAPPING_TOTAL_LEN as int),
                )
                &&& pi.subrange(MAPPING_TOTAL_LEN as int, MAPPING_TOTAL_LEN as int + 4)
                    == crate::circuit_set::set_digest_of(self.set.digests@)
            },
    {
                let mut child_proofs = match ext.get_child_proofs() {
                    Ok(ps) => ps,
                    Err(e) => {
                        proof {
                            let proofs = ext.serialized_child_proofs@;
                            assert(!(forall|i: int| 0 <= i < proofs.len()
                                ==> crate::bundle::valid_wire_bytes((#[trigger] proofs[i])@)));
                        }
                        return Err(e);
                    }
                };
                if child_proofs.len() != 1 {
                    proof {
                        assert(ext.serialized_child_proofs@.len() != 1);
                    }
                    return Err(ProofError::InvalidChildProofCount);
                }
                let child = match child_proofs.pop() {
                    Some(c) => c,
                    None => {
                        return Err(ProofError::InvalidChildProofCount);
                    }
                };
                proof {
                    lemma_parsed_child(ext.serialized_child_proofs@, child, 0);
                }
                let ghost child_vk = child.vk@;
                if child.proof.public_inputs.len() < MAPPING_TOTAL_LEN {
                    proof {
                        let proofs = ext.serialized_child_proofs@;
                        assert(crate::bundle::encoded_public_inputs((proofs[0])@).len()
                            < MAPPING_TOTAL_LEN);
                        assert(!(forall|i: int| 0 <= i < proofs.len()
                            ==> crate::bundle::encoded_public_inputs(
                                (#[trigger] proofs[i])@,
                            ).len() >= MAPPING_TOTAL_LEN));
                    }
                    return Err(ProofError::BadPublicInputLength);
                }
                let child_pi = MappingPublicInputs::from_prefix(
                    child.proof.public_inputs.as_slice(),
                );
                proof {
                    assert(child_pi.inputs@
                        == parsed_branch_children(ext.serialized_child_proofs@)[0]);
                }
                let ProofInputSerialized { input: ext_node, serialized_child_proofs: _ } = ext;
                let circuit = ExtensionNodeCircuit { node: ext_node.node, prefix_nibbles };
                let pi = match circuit.build(&child_pi) {
                    Ok(pi) => pi,
                    Err(e) => {
                        proof {
                            assert(!(ext.input.node@.len() <= MAX_BRANCH_NODE_LEN
                                && parsed_branch_children(ext.serialized_child_proofs@)[0][64]
                                    + prefix_nibbles <= 64));
                        }
                        return Err(e);
                    }
                };
                let mut children: Vec<ProofWithVK> = Vec::new();
                children.push(child);
                proof {
                    assert(children@[0].vk@ == child_vk);
                }
                let ghost built = pi.inputs@;
                let b = match self.set.generate_proof(&self.ext_circuit, &children, pi.inputs) {
                    Ok(b) => b,
                    Err(e) => {
                        proof {
                            let proofs = ext.serialized_child_proofs@;
                            assert(!self.set.contains_digest(
                                crate::bundle::encoded_vk((proofs[0])@),
                            ));
                            assert(!(forall|i: int| 0 <= i < proofs.len()
                                ==> self.set.contains_digest(
                                    crate::bundle::encoded_vk((#[trigger] proofs[i])@),
                                )));
                        }
                        return Err(e);
                    }
                };
                proof {
                    assert(self.set.contains_digest(child_vk));
                    assert(child_proofs_usable(self.set, ext.serialized_child_proofs@));
                    assert(ext.serialized_child_proofs@.len() == 1);
                    assert(ext.input.node@.len() <= MAX_BRANCH_NODE_LEN);
                    assert(parsed_branch_children(ext.serialized_child_proofs@)[0][64]
                        + prefix_nibbles <= 64);
                    crate::bundle::lemma_bundle_round_trip(b);
                    crate::bundle::lemma_encoded_vk(b);
                    crate::bundle::lemma_encoded_pis(b);
                }
                let out = b.serialize();
                proof {
                    let enc = crate::bundle::encoded_public_inputs(out@);
                    assert(enc == b.proof.public_inputs@);
                    assert(enc.take(MAPPING_TOTAL_LEN as int) =~= built);
                    assert(enc.subrange(MAPPING_TOTAL_LEN as int, MAPPING_TOTAL_LEN as int + 4)
                        =~= crate::circuit_set::set_digest_of(self.set.digests@));
                    assert(extension_output(
                        parsed_branch_children(ext.serialized_child_proofs@)[0],
                        prefix_nibbles,
                        ext.input.node@,
                        enc.take(MAPPING_TOTAL_LEN as int),
                    ));
                }
                Ok(out)
    }

    /// Generate a branch proof over serialized children; succeeds exactly
    /// when every child proof is acceptable, the count fits a supported
    /// arity and the children merge, and the bundle carries the selected
    /// arity circuit's key.
    pub fn generate_branch_proof(&self, branch: ProofInputSerialized<InputNode>) -> (r: Result<
        Vec<u8>,
        ProofError,
    >)
        ensures
            r is Ok <==> {
                &&& child_proofs_usable(self.set, branch.serialized_child_proofs@)
                &&& 1 <= branch.serialized_child_proofs@.len() <= 16
                &&& branch_success(
                    parsed_branch_children(branch.serialized_child_proofs@),
                    branch.serialized_child_proofs@.len() as int,
                    branch.input.node@,
                )
            },
            r is Ok ==> crate::bundle::valid_wire_bytes(r->Ok_0@),
            r is Ok ==> crate::bundle::encoded_vk(r->Ok_0@) == {
                let n = branch.serialized_child_proofs@.len() as int;
                if n <= 2 {
                    self.branchs.b2@
                } else if n <= 9 {
                    self.branchs.b9@
                } else {
                    self.branchs.b16@
                }
            },
            r is Ok ==> {
                let pi = crate::bundle::encoded_public_inputs(r->Ok_0@);
                &&& pi.len() == MAPPING_TOTAL_LEN + 4
                &&& branch_output(
                    parsed_branch_children(branch.serialized_child_proofs@),
                    branch.serialized_child_proofs@.len() as int,
                    branch.input.node@,
                    pi.take(MAPPING_TOTAL_LEN as int),
                )
                &&& pi.subrange(MAPPING_TOTAL_LEN as int, MAPPING_TOTAL_LEN as int + 4)
                    == crate::circuit_set::set_digest_of(self.set.digests@)
            },
    {
                let ghost raw = branch.serialized_child_proofs@;
                let child_proofs = match branch.get_child_proofs() {
                    Ok(ps) => ps,
                    Err(e) => {
                        proof {
                            assert(!(forall|i: int| 0 <= i < raw.len()
                                ==> crate::bundle::valid_wire_bytes((#[trigger] raw[i])@)));
                        }
                        return Err(e);
                    }
                };
                let n: usize = child_proofs.len();
                let arity: usize = match select_branch_arity(n) {
                    Some(a) => a,
                    None => {
                        proof {
                            assert(!(1 <= raw.len() <= 16));
                        }
                        return Err(ProofError::InvalidChildProofCount);
                    }
                };
                proof {
                    assert forall|t: int| 0 <= t < n implies {
                        &&& (#[trigger] child_proofs@[t]).vk@
                            == crate::bundle::encoded_vk(raw[t]@)
                        &&& child_proofs@[t].proof.public_inputs@
                            == crate::bundle::encoded_public_inputs(raw[t]@)
                    } by {
                        lemma_parsed_child(raw, child_proofs@[t], t);
                    }
                    assert forall|t: int| 0 <= t < raw.len()
                        implies crate::bundle::valid_wire_bytes((#[trigger] raw[t])@) by {
                        assert(crate::bundle::valid_wire_bytes(
                            branch.serialized_child_proofs@[t]@,
                        ));
                    }
                }
                let mut child_pis: Vec<MappingPublicInputs> = Vec::new();
                let mut i: usize = 0;
                while i < n
                    invariant
                        i <= n,
                        n == child_proofs@.len(),
                        n == raw.len(),
                        raw == branch.serialized_child_proofs@,
                        forall|t: int| 0 <= t < n ==> (#[trigger] child_proofs@[t]).vk@
                            == crate::bundle::encoded_vk(raw[t]@),
                        forall|t: int| 0 <= t < n
                            ==> (#[trigger] child_proofs@[t]).proof.public_inputs@
                                == crate::bundle::encoded_public_inputs(raw[t]@),
                        child_pis@.len() == i,
                        forall|t: int| 0 <= t < i ==> (#[trigger] child_pis@[t]).wf()
                            && child_pis@[t].inputs@ == parsed_branch_children(raw)[t],
                        forall|t: int| 0 <= t < i
                            ==> (#[trigger] child_proofs@[t]).proof.public_inputs@.len()
                                >= MAPPING_TOTAL_LEN,
                        forall|t: int| 0 <= t < raw.len()
                            ==> crate::bundle::valid_wire_bytes((#[trigger] raw[t])@),
                    decreases n - i,
                {
                    let p = &child_proofs[i];
                    if p.proof.public_inputs.len() < MAPPING_TOTAL_LEN {
                        proof {
                            let w = i as int;
                            let proofs = branch.serialized_child_proofs@;
                            assert(raw[w] == proofs[w]);
                            assert(crate::bundle::encoded_public_inputs((proofs[w])@).len()
                                < MAPPING_TOTAL_LEN);
                            assert(!(forall|t: int| 0 <= t < proofs.len()
                                ==> crate::bundle::encoded_public_inputs(
                                    (#[trigger] proofs[t])@,
                                ).len() >= MAPPING_TOTAL_LEN));
                        }
                        return Err(ProofError::BadPublicInputLength);
                    }
                    child_pis.push(MappingPublicInputs::from_prefix(
                        p.proof.public_inputs.as_slice(),
                    ));
                    i = i + 1;
                }
                // Pad the proof list to the chosen arity by repeating the
                // first real child proof; the circuit only aggregates the
                // first `n`.
                let ghost orig = child_proofs@;
                let mut padded_proofs = child_proofs;
                let mut k: usize = padded_proofs.len();
                while k < arity
                    invariant
                        n <= k <= arity || (k == n && n >= arity),
                        k == padded_proofs@.len(),
                        n >= 1,
                        n == orig.len(),
                        n == raw.len(),
                        raw == branch.serialized_child_proofs@,
                        forall|t: int| 0 <= t < n ==> #[trigger] padded_proofs@[t] == orig[t],
                        forall|t: int| n <= t < k ==> (#[trigger] padded_proofs@[t]).vk@
                            == padded_proofs@[0].vk@,
                        forall|t: int| 0 <= t < raw.len()
                            ==> crate::bundle::valid_wire_bytes((#[trigger] raw[t])@),
                        forall|t: int| 0 <= t < n
                            ==> (#[trigger] orig[t]).proof.public_inputs@.len()
                                >= MAPPING_TOTAL_LEN,
                        forall|t: int| 0 <= t < n
                            ==> (#[trigger] orig[t]).proof.public_inputs@
                                == crate::bundle::encoded_public_inputs(raw[t]@),
                    decreases arity - k,
                {
                    let first = ProofWithVK {
                        proof: crate::bundle::ProofData {
                            public_inputs: clone_words(&padded_proofs[0].proof.public_inputs),
                        },
                        vk: padded_proofs[0].vk,
                    };
                    padded_proofs.push(first);
                    k = k + 1;
                }
                let circuit = BranchCircuit {
                    node: clone_bytes(&branch.input.node),
                    nb_proofs: n,
                };
                proof {
                    assert(children_words(child_pis@) =~= parsed_branch_children(raw));
                }
                let ghost built_children = children_words(child_pis@);
                let pi = match circuit.build(&child_pis) {
                    Ok(pi) => pi,
                    Err(e) => {
                        proof {
                            assert(!branch_success(
                                parsed_branch_children(branch.serialized_child_proofs@),
                                branch.serialized_child_proofs@.len() as int,
                                branch.input.node@,
                            ));
                        }
                        return Err(e);
                    }
                };
                let branch_vk: [u64; 4] = if arity == 2 {
                    self.branchs.b2
                } else if arity == 9 {
                    self.branchs.b9
                } else {
                    self.branchs.b16
                };
                let b = match self.set.generate_proof(&branch_vk, &padded_proofs, pi.inputs) {
                    Ok(b) => b,
                    Err(e) => {
                        proof {
                            // Some supplied proof's key is outside the set; padding
                            // repeats the first child, so a genuine child fails too.
                            let jw = choose|j: int| 0 <= j < padded_proofs@.len()
                                && !self.set.contains_digest(
                                (#[trigger] padded_proofs@[j]).vk@,
                            );
                            let w = if jw < n { jw } else { 0int };
                            assert(padded_proofs@[w] == orig[w]);
                            assert(!self.set.contains_digest(orig[w].vk@));
                            assert(!self.set.contains_digest(
                                crate::bundle::encoded_vk((raw[w])@),
                            ));
                            assert(!(forall|t: int| 0 <= t < raw.len()
                                ==> self.set.contains_digest(
                                    crate::bundle::encoded_vk((#[trigger] raw[t])@),
                                )));
                        }
                        return Err(e);
                    }
                };
                proof {
                    assert forall|t: int| 0 <= t < n
                        implies self.set.contains_digest(
                        crate::bundle::encoded_vk(#[trigger] raw[t]@),
                    ) by {
                        assert(padded_proofs@[t] == orig[t]);
                        assert(self.set.contains_digest(padded_proofs@[t].vk@));
                    }
                    assert forall|t: int| 0 <= t < raw.len()
                        implies crate::bundle::valid_wire_bytes(
                        (#[trigger] raw[t])@,
                    ) by {
                        assert(crate::bundle::valid_wire_bytes(
                            branch.serialized_child_proofs@[t]@,
                        ));
                    }
                    assert forall|t: int| 0 <= t < raw.len()
                        implies crate::bundle::encoded_public_inputs((#[trigger] raw[t])@).len()
                        >= MAPPING_TOTAL_LEN by {
                        assert(child_proofs@[t].proof.public_inputs@.len() >= MAPPING_TOTAL_LEN);
                        assert(child_proofs@[t].proof.public_inputs@
                            == crate::bundle::encoded_public_inputs(raw[t]@));
                    }
                    assert forall|t: int| 0 <= t < raw.len()
                        implies self.set.contains_digest(
                        crate::bundle::encoded_vk((#[trigger] raw[t])@),
                    ) by {
                        assert(self.set.contains_digest(crate::bundle::encoded_vk(raw[t]@)));
                    }
                    assert(child_proofs_usable(self.set, branch.serialized_child_proofs@));
                    assert(1 <= branch.serialized_child_proofs@.len() <= 16);
                    assert(branch_success(
                        parsed_branch_children(branch.serialized_child_proofs@),
                        branch.serialized_child_proofs@.len() as int,
                        branch.input.node@,
                    ));
                    crate::bundle::lemma_bundle_round_trip(b);
                    crate::bundle::lemma_encoded_vk(b);
                    crate::bundle::lemma_encoded_pis(b);
                }
                let out = b.serialize();
                proof {
                    let enc = crate::bundle::encoded_public_inputs(out@);
                    assert(enc == b.proof.public_inputs@);
                    assert(enc.take(MAPPING_TOTAL_LEN as int) =~= pi.inputs@);
                    assert(enc.subrange(MAPPING_TOTAL_LEN as int, MAPPING_TOTAL_LEN as int + 4)
                        =~= crate::circuit_set::set_digest_of(self.set.digests@));
                    assert(branch_output(
                        parsed_branch_children(branch.serialized_child_proofs@),
                        branch.serialized_child_proofs@.len() as int,
                        branch.input.node@,
                        enc.take(MAPPING_TOTAL_LEN as int),
                    ));
                }
                Ok(out)
    }


    /// The set of circuits whose trie proofs later layers accept.
    pub fn get_mapping_circuit_set(&self) -> (r: &RecursiveCircuits)
        ensures
            r == &self.set,
    {
        &self.set
    }
}

/// Copy a byte vector.
pub fn clone_bytes(bytes: &Vec<u8>) -> (r: Vec<u8>)
    ensures
        r@ == bytes@,
{
    let mut out: Vec<u8> = Vec::new();
    let mut i: usize = 0;
    while i < bytes.len()
        invariant
            i <= bytes@.len(),
            out@.len() == i,
            forall|j: int| 0 <= j < i ==> out@[j] == bytes@[j],
        decreases bytes@.len() - i,
    {
        out.push(bytes[i]);
        i = i + 1;
    }
    proof {
        assert(out@ =~= bytes@);
    }
    out
}

/// Copy a word vector.
pub fn clone_words(words: &Vec<u64>) -> (r: Vec<u64>)
    ensures
        r@ == words@,
{
    let mut out: Vec<u64> = Vec::new();
    let mut i: usize = 0;
    while i < words.len()
        invariant
            i <= words@.len(),
            out@.len() == i,
            forall|j: int| 0 <= j < i ==> out@[j] == words@[j],
        decreases words@.len() - i,
    {
        out.push(words[i]);
        i = i + 1;
    }
    proof {
        assert(out@ =~= words@);
    }
    out
}

/// Padding a child list beyond the genuine entries does not change what the
/// first `k` entries sum to: duplicated padding digests are excluded from
/// the aggregation, never double counted.
pub proof fn lemma_padding_excluded(genuine: Seq<Digest>, padding: Seq<Digest>, k: int)
    requires
        0 <= k <= genuine.len(),
    ensures
        digest_sum_prefix(genuine + padding, k) == digest_sum_prefix(genuine, k),
    decreases k,
{
    if k > 0 {
        lemma_padding_excluded(genuine, padding, k - 1);
        assert((genuine + padding)[k - 1] == genuine[k - 1]);
    }
}

} // verus!
