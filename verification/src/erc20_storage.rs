//! Storage-tree circuits of the ERC20 query: a leaf that computes one
//! account's reward share, and an inner node that hashes a proved child with
//! an unproved sibling.
//!
//! The public-input layout of this family is, in order: the subtree root
//! commitment (4 words), the queried address (5 words), the packed 256-bit
//! query result (8 words) and the packed 256-bit rewards rate (8 words).

use vstd::prelude::*;
use vstd::arithmetic::power2::*;
use vstd::arithmetic::div_mod::*;

use crate::bundle::ProofWithVK;
use crate::circuit_set::{set_digest_of, RecursiveCircuits};
use crate::errors::ProofError;
use crate::hash::{node_hash, node_hash_of};
use crate::pack::{u256_to_words, words_in_u32_range, words_val};
use crate::u256::UInt256;

verus! {

/// Word length of the root commitment field.
pub const C_LEN: usize = 4;

/// Word length of a packed address.
pub const PACKED_ADDRESS_LEN: usize = 5;

/// Word length of a packed 256-bit value.
pub const PACKED_U256_LEN: usize = 8;

/// Total word length of this family's public inputs.
pub const STORAGE_TOTAL_LEN: usize = 25;

/// The public inputs of a storage-tree proof of the ERC20 query.
#[derive(Clone, Debug)]
pub struct PublicInputs {
    pub inputs: Vec<u64>,
}

impl PublicInputs {
    /// The declared total length of the layout.
    pub fn total_len() -> (r: usize)
        ensures
            r == STORAGE_TOTAL_LEN,
    {
        STORAGE_TOTAL_LEN
    }

    /// Read a layout from a public-input slice of exactly the declared
    /// length; a slice of any other length is a caller error the layout
    /// refuses.
    pub fn from_slice(arr: &[u64]) -> (r: PublicInputs)
        requires
            arr@.len() == STORAGE_TOTAL_LEN,
        ensures
            r.inputs@ == arr@,
            r.wf(),
    {
        let r = Self::from_prefix(arr);
        proof {
            assert(arr@.take(STORAGE_TOTAL_LEN as int) =~= arr@);
        }
        r
    }

    /// Read a layout off the front of a longer word vector, as when a
    /// proof's public inputs carry the set digest after the layout.
    pub(crate) fn from_prefix(arr: &[u64]) -> (r: PublicInputs)
        requires
            arr@.len() >= STORAGE_TOTAL_LEN,
        ensures
            r.inputs@ == arr@.take(STORAGE_TOTAL_LEN as int),
            r.wf(),
    {
        let mut inputs: Vec<u64> = Vec::new();
        let mut i: usize = 0;
        while i < STORAGE_TOTAL_LEN
            invariant
                i <= STORAGE_TOTAL_LEN,
                arr@.len() >= STORAGE_TOTAL_LEN,
                inputs@.len() == i,
                forall|j: int| 0 <= j < i ==> inputs@[j] == arr@[j],
            decreases STORAGE_TOTAL_LEN - i,
        {
            inputs.push(arr[i]);
            i = i + 1;
        }
        proof {
            assert(inputs@ =~= arr@.take(STORAGE_TOTAL_LEN as int));
        }
        PublicInputs { inputs }
    }

    /// The layout has its declared length.
    pub open spec fn wf(self) -> bool {
        self.inputs@.len() == STORAGE_TOTAL_LEN
    }

    /// The root commitment words.
    pub fn root_hash_raw(&self) -> (r: Vec<u64>)
        requires
            self.wf(),
        ensures
            r@ == self.inputs@.subrange(0, 4),
    {
        slice_range(&self.inputs, 0, 4)
    }

    /// The queried address words.
    pub fn query_user_address_raw(&self) -> (r: Vec<u64>)
        requires
            self.wf(),
        ensures
            r@ == self.inputs@.subrange(4, 9),
    {
        slice_range(&self.inputs, 4, 9)
    }

    /// The packed query-result words.
    pub fn query_results_raw(&self) -> (r: Vec<u64>)
        requires
            self.wf(),
        ensures
            r@ == self.inputs@.subrange(9, 17),
    {
        slice_range(&self.inputs, 9, 17)
    }

    /// The packed rewards-rate words.
    pub fn query_rewards_rate_raw(&self) -> (r: Vec<u64>)
        requires
            self.wf(),
        ensures
            r@ == self.inputs@.subrange(17, 25),
    {
        slice_range(&self.inputs, 17, 25)
    }
}

/// Copy the words of `[from, to)` out of a public-input vector.
pub fn slice_range(inputs: &Vec<u64>, from: usize, to: usize) -> (r: Vec<u64>)
    requires
        from <= to <= inputs@.len(),
    ensures
        r@ == inputs@.subrange(from as int, to as int),
{
    let mut out: Vec<u64> = Vec::new();
    let mut i: usize = from;
    while i < to
        invariant
            from <= i <= to <= inputs@.len(),
            out@.len() == i - from,
            forall|j: int| 0 <= j < i - from ==> out@[j] == inputs@[from + j],
        decreases to - i,
    {
        out.push(inputs[i]);
        i = i + 1;
    }
    proof {
        assert(out@ =~= inputs@.subrange(from as int, to as int));
    }
    out
}

/// The layout a storage leaf exposes for its witness: the commitment of
/// the held address and value, the held address, the reward share (zero
/// unless the held address is the queried one), and the rewards rate.
pub open spec fn leaf_output(c: LeafCircuit, pi: Seq<u64>) -> bool {
    &&& pi.len() == STORAGE_TOTAL_LEN
    &&& pi.subrange(0, 4) == node_hash_of(leaf_preimage(c.address@, c.value))
    &&& pi.subrange(4, 9) == c.address@
    &&& words_in_u32_range(pi.subrange(9, 17))
    &&& words_val(pi.subrange(9, 17)) == if c.address@ == c.query_address@ {
        (c.value.val() * c.rewards_rate.val()) / c.total_supply.val()
    } else {
        0
    }
    &&& (forall|i: int| 0 <= i < 8 ==> pi[17 + i] == c.rewards_rate.limbs@[i] as u64)
}

/// The layout an inner storage node exposes over its proved child: the
/// ordered hash of sibling and child root, everything else passed through.
pub open spec fn inner_node_output(
    proved: Seq<u64>,
    sibling: Seq<u64>,
    proved_is_right: bool,
    pi: Seq<u64>,
) -> bool {
    &&& pi.len() == STORAGE_TOTAL_LEN
    &&& pi.subrange(0, 4) == node_hash_of(
        if proved_is_right {
            sibling + proved.subrange(0, 4)
        } else {
            proved.subrange(0, 4) + sibling
        },
    )
    &&& pi.subrange(4, 25) == proved.subrange(4, 25)
}

/// Witness data of a storage leaf: the account it holds, the address the
/// query asks for, the account's balance, and the contract's total supply
/// and rewards rate.
#[derive(Clone, Debug)]
pub struct LeafCircuit {
    pub address: [u64; 5],
    pub query_address: [u64; 5],
    pub value: UInt256,
    pub total_supply: UInt256,
    pub rewards_rate: UInt256,
}

/// The preimage of a leaf's root commitment: the address left-padded to 8
/// words, then the value's limbs in big-endian order.
pub open spec fn leaf_preimage(addr: Seq<u64>, value: UInt256) -> Seq<u64> {
    seq![0u64, 0u64, 0u64] + addr + Seq::new(8, |i: int| value.limbs@[7 - i] as u64)
}

impl LeafCircuit {
    /// Build a leaf's public inputs.  The reward share is
    /// `rewards_rate * value / total_supply`; a multiplication overflow or a
    /// zero total supply is rejected, never silently truncated.  The result
    /// is exposed only when the held address is the queried one, else it is
    /// zero.
    pub fn build(&self) -> (r: Result<PublicInputs, ProofError>)
        ensures
            r is Ok <==> self.value.val() * self.rewards_rate.val() < pow2(256)
                && self.total_supply.val() != 0,
            self.value.val() * self.rewards_rate.val() >= pow2(256)
                ==> r == Err::<PublicInputs, ProofError>(ProofError::ResultOverflow),
            (self.value.val() * self.rewards_rate.val() < pow2(256)
                && self.total_supply.val() == 0)
                ==> r == Err::<PublicInputs, ProofError>(ProofError::DivisionByZero),
            r is Ok ==> r->Ok_0.wf() && leaf_output(*self, r->Ok_0.inputs@),
    {
        let (op1, overflow) = self.value.mul_u256(&self.rewards_rate);
        if overflow {
            return Err(ProofError::ResultOverflow);
        }
        proof {
            lemma_pow2_pos(256);
            crate::u256::lemma_val_bound(self.value);
            crate::u256::lemma_val_bound(self.rewards_rate);
            vstd::arithmetic::mul::lemma_mul_nonnegative(
                self.value.val(),
                self.rewards_rate.val(),
            );
            lemma_small_mod(
                (self.value.val() * self.rewards_rate.val()) as nat,
                pow2(256),
            );
        }
        let (res, _rem, div_by_zero) = op1.div_u256(&self.total_supply);
        if div_by_zero {
            return Err(ProofError::DivisionByZero);
        }
        let are_addresses_equal = address_words_equal(&self.address, &self.query_address);
        let zero = UInt256::zero_u256();
        let final_output = UInt256::select_u256(are_addresses_equal, &res, &zero);

        let mut preimage: Vec<u64> = Vec::new();
        preimage.push(0u64);
        preimage.push(0u64);
        preimage.push(0u64);
        let mut a: usize = 0;
        while a < 5
            invariant
                a <= 5,
                preimage@.len() == 3 + a,
                preimage@[0] == 0u64 && preimage@[1] == 0u64 && preimage@[2] == 0u64,
                forall|j: int| 0 <= j < a ==> preimage@[3 + j] == self.address@[j],
            decreases 5 - a,
        {
            preimage.push(self.address[a]);
            a = a + 1;
        }
        let mut b: usize = 0;
        while b < 8
            invariant
                b <= 8,
                preimage@.len() == 8 + b,
                preimage@[0] == 0u64 && preimage@[1] == 0u64 && preimage@[2] == 0u64,
                forall|j: int| 0 <= j < 5 ==> preimage@[3 + j] == self.address@[j],
                forall|j: int| 0 <= j < b ==> #[trigger] preimage@[8 + j]
                    == self.value.limbs@[7 - j] as u64,
            decreases 8 - b,
        {
            preimage.push(self.value.limbs[7 - b] as u64);
            b = b + 1;
        }
        proof {
            let model = leaf_preimage(self.address@, self.value);
            assert forall|i: int| 0 <= i < 16 implies preimage@[i] == model[i] by {
                if i >= 8 {
                    let j = i - 8;
                    assert(preimage@[8 + j] == self.value.limbs@[7 - j] as u64);
                }
            }
            assert(preimage@ =~= model);
        }
        let c = node_hash(&preimage);

        let mut inputs: Vec<u64> = Vec::new();
        inputs.push(c[0]);
        inputs.push(c[1]);
        inputs.push(c[2]);
        inputs.push(c[3]);
        let mut a2: usize = 0;
        while a2 < 5
            invariant
                a2 <= 5,
                inputs@.len() == 4 + a2,
                inputs@.subrange(0, 4) =~= c@.take(4),
                forall|j: int| 0 <= j < 4 ==> inputs@[j] == c@[j],
                forall|j: int| 0 <= j < a2 ==> inputs@[4 + j] == self.address@[j],
            decreases 5 - a2,
        {
            inputs.push(self.address[a2]);
            a2 = a2 + 1;
        }
        let result_words = u256_to_words(&final_output);
        let mut w: usize = 0;
        while w < 8
            invariant
                w <= 8,
                result_words@.len() == 8,
                inputs@.len() == 9 + w,
                forall|j: int| 0 <= j < 4 ==> inputs@[j] == c@[j],
                forall|j: int| 0 <= j < 5 ==> inputs@[4 + j] == self.address@[j],
                forall|j: int| 0 <= j < w ==> inputs@[9 + j] == result_words@[j],
            decreases 8 - w,
        {
            inputs.push(result_words[w]);
            w = w + 1;
        }
        let mut w2: usize = 0;
        while w2 < 8
            invariant
                w2 <= 8,
                result_words@.len() == 8,
                inputs@.len() == 17 + w2,
                forall|j: int| 0 <= j < 4 ==> inputs@[j] == c@[j],
                forall|j: int| 0 <= j < 5 ==> inputs@[4 + j] == self.address@[j],
                forall|j: int| 0 <= j < 8 ==> inputs@[9 + j] == result_words@[j],
                forall|j: int| 0 <= j < w2 ==> inputs@[17 + j] == self.rewards_rate.limbs@[j] as u64,
            decreases 8 - w2,
        {
            inputs.push(self.rewards_rate.limbs[w2] as u64);
            w2 = w2 + 1;
        }
        let out = PublicInputs { inputs };
        proof {
            assert(out.inputs@.subrange(0, 4) =~= node_hash_of(
                leaf_preimage(self.address@, self.value),
            ));
            assert(out.inputs@.subrange(4, 9) =~= self.address@);
            assert(out.inputs@.subrange(9, 17) =~= result_words@);
            if self.address@ == self.query_address@ {
                assert(final_output.val()
                    == (self.value.val() * self.rewards_rate.val()) / self.total_supply.val());
            } else {
                assert(final_output.val() == 0);
            }
        }
        Ok(out)
    }
}

/// Equality of two packed addresses.
pub fn address_words_equal(a: &[u64; 5], b: &[u64; 5]) -> (r: bool)
    ensures
        r <==> a@ == b@,
{
    let r = a[0] == b[0] && a[1] == b[1] && a[2] == b[2] && a[3] == b[3] && a[4] == b[4];
    proof {
        if r {
            assert(a@ =~= b@);
        } else {
            if a@ == b@ {
                assert(a@[0] == b@[0] && a@[1] == b@[1] && a@[2] == b@[2] && a@[3] == b@[3]
                    && a@[4] == b@[4]);
                assert(false);
            }
        }
    }
    r
}

/// Witness data of an inner storage node: which side the proved child is
/// on, and the sibling's untouched subtree hash.
#[derive(Clone, Debug)]
pub struct InnerNodeCircuit {
    pub proved_is_right: bool,
    pub unproved_hash: [u64; 4],
}

impl InnerNodeCircuit {
    /// Build an inner node's public inputs over one proved child: the new
    /// root hashes the two children in their tree order, and every other
    /// field passes through from the proved child unchanged.
    pub fn build(&self, proved: &PublicInputs) -> (r: PublicInputs)
        requires
            proved.wf(),
        ensures
            r.wf(),
            inner_node_output(proved.inputs@, self.unproved_hash@, self.proved_is_right, r.inputs@),
    {
        let child_root = slice_range(&proved.inputs, 0, 4);
        let mut preimage: Vec<u64> = Vec::new();
        if self.proved_is_right {
            preimage.push(self.unproved_hash[0]);
            preimage.push(self.unproved_hash[1]);
            preimage.push(self.unproved_hash[2]);
            preimage.push(self.unproved_hash[3]);
            preimage.push(child_root[0]);
            preimage.push(child_root[1]);
            preimage.push(child_root[2]);
            preimage.push(child_root[3]);
            proof {
                assert(preimage@ =~= self.unproved_hash@ + proved.inputs@.subrange(0, 4));
            }
        } else {
            preimage.push(child_root[0]);
            preimage.push(child_root[1]);
            preimage.push(child_root[2]);
            preimage.push(child_root[3]);
            preimage.push(self.unproved_hash[0]);
            preimage.push(self.unproved_hash[1]);
            preimage.push(self.unproved_hash[2]);
            preimage.push(self.unproved_hash[3]);
            proof {
                assert(preimage@ =~= proved.inputs@.subrange(0, 4) + self.unproved_hash@);
            }
        }
        let c = node_hash(&preimage);
        let mut inputs: Vec<u64> = Vec::new();
        inputs.push(c[0]);
        inputs.push(c[1]);
        inputs.push(c[2]);
        inputs.push(c[3]);
        let mut i: usize = 4;
        while i < 25
            invariant
                4 <= i <= 25,
                proved.wf(),
                inputs@.len() == i,
                forall|j: int| 0 <= j < 4 ==> inputs@[j] == c@[j],
                forall|j: int| 4 <= j < i ==> inputs@[j] == proved.inputs@[j],
            decreases 25 - i,
        {
            inputs.push(proved.inputs[i]);
            i = i + 1;
        }
        let out = PublicInputs { inputs };
        proof {
            assert(out.inputs@.subrange(0, 4) =~= c@.take(4));
            assert(c@.take(4) =~= c@);
            assert(out.inputs@.subrange(4, 25) =~= proved.inputs@.subrange(4, 25));
        }
        out
    }
}

/// Inputs to proof generation in the storage family.
pub enum CircuitInput {
    Leaf(LeafCircuit),
    Inner(InnerNodeCircuit, ProofWithVK),
}

impl CircuitInput {
    /// Input for proving a storage leaf.
    pub fn new_leaf(
        address: [u64; 5],
        query_address: [u64; 5],
        value: UInt256,
        total_supply: UInt256,
        rewards_rate: UInt256,
    ) -> (r: CircuitInput)
        ensures
            r == CircuitInput::Leaf(LeafCircuit {
                address,
                query_address,
                value,
                total_supply,
                rewards_rate,
            }),
    {
        CircuitInput::Leaf(LeafCircuit { address, query_address, value, total_supply, rewards_rate })
    }

    /// Input for proving an inner node over a serialized child proof; fails
    /// exactly when the child proof's encoding is malformed.
    pub fn new_inner_node(
        child_proof: &Vec<u8>,
        unproved_hash: [u64; 4],
        proved_is_right: bool,
    ) -> (r: Result<CircuitInput, ProofError>)
        ensures
            r is Ok <==> crate::bundle::valid_wire_bytes(child_proof@),
            r is Ok ==> match r->Ok_0 {
                CircuitInput::Inner(node, child) => node.proved_is_right == proved_is_right
                    && node.unproved_hash == unproved_hash
                    && child.wire_words() == crate::bundle::words_of_bytes(child_proof@),
                _ => false,
            },
            r is Err ==> r->Err_0 == ProofError::BadProofEncoding,
    {
        let child = ProofWithVK::deserialize(child_proof)?;
        Ok(CircuitInput::Inner(InnerNodeCircuit { proved_is_right, unproved_hash }, child))
    }
}

/// The storage family's compiled circuits: the two verifier-key digests and
/// the circuit set built over them, fixed once at startup.
pub struct Parameters {
    pub leaf_circuit: [u64; 4],
    pub inner_node_circuit: [u64; 4],
    pub set: RecursiveCircuits,
}

impl Parameters {
    /// The set holds exactly the two circuits.
    pub open spec fn wf(self) -> bool {
        self.set.digests@ == seq![self.leaf_circuit, self.inner_node_circuit]
    }

    /// Build the two circuits and their set.
    pub fn build() -> (r: Parameters)
        ensures
            r.wf(),
    {
        let leaf_circuit = derive_circuit_digest(1);
        let inner_node_circuit = derive_circuit_digest(2);
        let mut digests: Vec<[u64; 4]> = Vec::new();
        digests.push(leaf_circuit);
        digests.push(inner_node_circuit);
        let r = Parameters {
            leaf_circuit,
            inner_node_circuit,
            set: RecursiveCircuits::new_from_circuit_digests(digests),
        };
        proof {
            assert(r.set.digests@ =~= seq![r.leaf_circuit, r.inner_node_circuit]);
        }
        r
    }

    /// Generate a serialized proof for the requested circuit.  A leaf proof
    /// is generated from its witness alone and succeeds exactly when the
    /// reward computation does; an inner-node proof additionally verifies
    /// its child proof against the circuit set.  The returned bundle is a
    /// well-formed encoding carrying the requested circuit's verifier key.
    pub fn generate_proof(&self, input: CircuitInput) -> (r: Result<Vec<u8>, ProofError>)
        requires
            self.wf(),
        ensures
            r is Ok <==> match input {
                CircuitInput::Leaf(leaf) => leaf.value.val() * leaf.rewards_rate.val() < pow2(256)
                    && leaf.total_supply.val() != 0,
                CircuitInput::Inner(_, child) => child.proof.public_inputs@.len()
                    >= STORAGE_TOTAL_LEN && self.set.contains_digest(child.vk@),
            },
            r is Ok ==> crate::bundle::valid_wire_bytes(r->Ok_0@),
            r is Ok ==> crate::bundle::encoded_vk(r->Ok_0@) == match input {
                CircuitInput::Leaf(_) => self.leaf_circuit@,
                CircuitInput::Inner(_, _) => self.inner_node_circuit@,
            },
            r is Ok ==> match input {
                CircuitInput::Leaf(leaf) => {
                    let pi = crate::bundle::encoded_public_inputs(r->Ok_0@);
                    &&& pi.len() == STORAGE_TOTAL_LEN + 4
                    &&& leaf_output(leaf, pi.take(STORAGE_TOTAL_LEN as int))
                    &&& pi.subrange(STORAGE_TOTAL_LEN as int, STORAGE_TOTAL_LEN as int + 4)
                        == set_digest_of(self.set.digests@)
                },
                CircuitInput::Inner(node, child) => {
                    let pi = crate::bundle::encoded_public_inputs(r->Ok_0@);
                    &&& pi.len() == STORAGE_TOTAL_LEN + 4
                    &&& inner_node_output(
                        child.proof.public_inputs@.take(STORAGE_TOTAL_LEN as int),
                        node.unproved_hash@,
                        node.proved_is_right,
                        pi.take(STORAGE_TOTAL_LEN as int),
                    )
                    &&& pi.subrange(STORAGE_TOTAL_LEN as int, STORAGE_TOTAL_LEN as int + 4)
                        == set_digest_of(self.set.digests@)
                },
            },
    {
        let bundle = match input {
            CircuitInput::Leaf(leaf) => {
                let pi = leaf.build()?;
                let b = self.set.generate_proof(&self.leaf_circuit, &Vec::new(), pi.inputs)?;
                proof {
                    assert(b.proof.public_inputs@.take(STORAGE_TOTAL_LEN as int)
                        =~= pi.inputs@);
                    assert(b.proof.public_inputs@.subrange(
                        STORAGE_TOTAL_LEN as int,
                        STORAGE_TOTAL_LEN as int + 4,
                    ) =~= set_digest_of(self.set.digests@));
                }
                b
            }
            CircuitInput::Inner(inner, child) => {
                if child.proof.public_inputs.len() < STORAGE_TOTAL_LEN {
                    return Err(ProofError::BadPublicInputLength);
                }
                let ghost child_vk = child.vk@;
                let child_pi = PublicInputs::from_prefix(child.proof.public_inputs.as_slice());
                let pi = inner.build(&child_pi);
                let mut children: Vec<ProofWithVK> = Vec::new();
                children.push(child);
                proof {
                    assert(children@[0].vk@ == child_vk);
                }
                let b = self.set.generate_proof(&self.inner_node_circuit, &children, pi.inputs)?;
                proof {
                    assert(self.set.contains_digest(child_vk));
                    assert(b.proof.public_inputs@.take(STORAGE_TOTAL_LEN as int)
                        =~= pi.inputs@);
                    assert(b.proof.public_inputs@.subrange(
                        STORAGE_TOTAL_LEN as int,
                        STORAGE_TOTAL_LEN as int + 4,
                    ) =~= set_digest_of(self.set.digests@));
                }
                b
            }
        };
        proof {
            crate::bundle::lemma_bundle_round_trip(bundle);
            crate::bundle::lemma_encoded_vk(bundle);
            crate::bundle::lemma_encoded_pis(bundle);
        }
        Ok(bundle.serialize())
    }

    /// The set of circuits whose storage proofs later layers accept.
    pub fn get_storage_circuit_set(&self) -> (r: &RecursiveCircuits)
        ensures
            r == &self.set,
    {
        &self.set
    }
}

/// The digest identifying a compiled circuit of this library: a commitment
/// hash of its index in the build order.
pub fn derive_circuit_digest(tag: u64) -> (r: [u64; 4])
    ensures
        r@ == node_hash_of(seq![tag]),
{
    let mut words: Vec<u64> = Vec::new();
    words.push(tag);
    proof {
        assert(words@ =~= seq![tag]);
    }
    node_hash(&words)
}

} // verus!
