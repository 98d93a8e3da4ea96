//! The circuit-set framework behind the universal verifier.
//!
//! A recursion layer does not verify proofs of one fixed circuit: it accepts
//! any member of a declared, immutable set of circuits, committed to by a
//! single set digest.  A proof is recursively usable exactly when the digest
//! of its verifier key is a member of the set; a specialized check instead
//! pins one specific circuit and accepts that one alone.  Every proof built
//! against a set exposes the set's digest after its own public inputs.

use vstd::prelude::*;

use crate::bundle::{ProofData, ProofWithVK};
use crate::errors::ProofError;
use crate::hash::{node_hash, node_hash_of};

verus! {

/// An immutable family of circuits a universal verifier accepts, as the
/// digests of their verifier keys.
pub struct RecursiveCircuits {
    pub digests: Vec<[u64; 4]>,
}

/// The set digest: a chained commitment hash over the member digests, in
/// order, starting from the all-zero words.
pub open spec fn set_digest_of(s: Seq<[u64; 4]>) -> Seq<u64>
    decreases s.len(),
{
    if s.len() == 0 {
        seq![0u64, 0u64, 0u64, 0u64]
    } else {
        node_hash_of(set_digest_of(s.drop_last()) + s.last()@)
    }
}

impl RecursiveCircuits {
    /// Whether the digest of a verifier key belongs to the set.
    pub open spec fn contains_digest(self, d: Seq<u64>) -> bool {
        exists|i: int| 0 <= i < self.digests@.len() && self.digests@[i]@ == d
    }

    /// Build the set from the digests of its member circuits.  The set is
    /// built once, when the whole family is known, and never changes.
    pub fn new_from_circuit_digests(digests: Vec<[u64; 4]>) -> (r: Self)
        ensures
            r.digests@ == digests@,
    {
        RecursiveCircuits { digests }
    }

    /// Membership of a verifier-key digest in the set.
    pub fn contains(&self, d: &[u64; 4]) -> (r: bool)
        ensures
            r <==> self.contains_digest(d@),
    {
        let mut i: usize = 0;
        while i < self.digests.len()
            invariant
                i <= self.digests@.len(),
                forall|j: int| 0 <= j < i ==> self.digests@[j]@ != d@,
            decreases self.digests@.len() - i,
        {
            let m = &self.digests[i];
            if m[0] == d[0] && m[1] == d[1] && m[2] == d[2] && m[3] == d[3] {
                proof {
                    assert(self.digests@[i as int]@ =~= d@);
                }
                return true;
            }
            proof {
                if self.digests@[i as int]@ == d@ {
                    assert(self.digests@[i as int]@[0] == d@[0]);
                    assert(false);
                }
            }
            i = i + 1;
        }
        false
    }

    /// The set digest every verifier of this set is built against.
    pub fn get_circuit_set_digest(&self) -> (r: [u64; 4])
        ensures
            r@ == set_digest_of(self.digests@),
    {
        let mut acc: [u64; 4] = [0u64; 4];
        proof {
            assert(acc@ =~= set_digest_of(self.digests@.take(0)));
        }
        let mut i: usize = 0;
        while i < self.digests.len()
            invariant
                i <= self.digests@.len(),
                acc@ == set_digest_of(self.digests@.take(i as int)),
            decreases self.digests@.len() - i,
        {
            let mut words: Vec<u64> = Vec::new();
            let mut k: usize = 0;
            while k < 4
                invariant
                    k <= 4,
                    words@.len() == k,
                    forall|j: int| 0 <= j < k ==> words@[j] == acc@[j],
                decreases 4 - k,
            {
                words.push(acc[k]);
                k = k + 1;
            }
            let mut k2: usize = 0;
            while k2 < 4
                invariant
                    k2 <= 4,
                    i < self.digests@.len(),
                    words@.len() == 4 + k2,
                    forall|j: int| 0 <= j < 4 ==> words@[j] == acc@[j],
                    forall|j: int| 0 <= j < k2 ==> words@[4 + j] == self.digests@[i as int]@[j],
                decreases 4 - k2,
            {
                words.push(self.digests[i][k2]);
                k2 = k2 + 1;
            }
            proof {
                assert(words@ =~= set_digest_of(self.digests@.take(i as int))
                    + self.digests@[i as int]@);
                assert(self.digests@.take(i + 1).drop_last() =~= self.digests@.take(i as int));
                assert(self.digests@.take(i + 1).last() == self.digests@[i as int]);
            }
            acc = node_hash(&words);
            i = i + 1;
        }
        proof {
            assert(self.digests@.take(self.digests@.len() as int) =~= self.digests@);
        }
        acc
    }

    /// The universal verification check: a proof passes exactly when its
    /// verifier key's digest is a member of the set.
    pub fn verify_proof_in_set(&self, p: &ProofWithVK) -> (r: Result<(), ProofError>)
        ensures
            r is Ok <==> self.contains_digest(p.vk@),
            r is Err ==> r->Err_0 == ProofError::NoCircuitForVerifierKey,
    {
        if self.contains(&p.vk) {
            Ok(())
        } else {
            Err(ProofError::NoCircuitForVerifierKey)
        }
    }

    /// The pinned-circuit check: unlike the set-membership check, it accepts
    /// proofs of one specific trusted circuit and nothing else.
    pub fn verify_proof_fixed_circuit(p: &ProofWithVK, pinned: &[u64; 4]) -> (r: Result<
        (),
        ProofError,
    >)
        ensures
            r is Ok <==> p.vk@ == pinned@,
            r is Err ==> r->Err_0 == ProofError::NoCircuitForVerifierKey,
    {
        if p.vk[0] == pinned[0] && p.vk[1] == pinned[1] && p.vk[2] == pinned[2]
            && p.vk[3] == pinned[3] {
            proof {
                assert(p.vk@ =~= pinned@);
            }
            Ok(())
        } else {
            proof {
                if p.vk@ == pinned@ {
                    assert(p.vk@[0] == pinned@[0]);
                    assert(false);
                }
            }
            Err(ProofError::NoCircuitForVerifierKey)
        }
    }

    /// Produce a proof of a circuit of this set: every child proof must pass
    /// the universal verification check, and the new proof exposes the given
    /// outputs followed by the set digest, under the circuit's verifier key.
    pub fn generate_proof(
        &self,
        circuit_vk: &[u64; 4],
        child_proofs: &Vec<ProofWithVK>,
        outputs: Vec<u64>,
    ) -> (r: Result<ProofWithVK, ProofError>)
        ensures
            r is Ok <==> (forall|i: int| 0 <= i < child_proofs@.len()
                ==> self.contains_digest((#[trigger] child_proofs@[i]).vk@)),
            r is Ok ==> r->Ok_0.proof.public_inputs@
                == outputs@ + set_digest_of(self.digests@),
            r is Ok ==> r->Ok_0.vk@ == circuit_vk@,
            r is Err ==> r->Err_0 == ProofError::NoCircuitForVerifierKey,
    {
        let mut i: usize = 0;
        while i < child_proofs.len()
            invariant
                i <= child_proofs@.len(),
                forall|j: int| 0 <= j < i
                    ==> self.contains_digest((#[trigger] child_proofs@[j]).vk@),
            decreases child_proofs@.len() - i,
        {
            match self.verify_proof_in_set(&child_proofs[i]) {
                Ok(_) => {}
                Err(e) => {
                    return Err(e);
                }
            }
            i = i + 1;
        }
        let mut public_inputs = outputs;
        let set_digest = self.get_circuit_set_digest();
        let ghost outs = public_inputs@;
        let mut k: usize = 0;
        while k < 4
            invariant
                k <= 4,
                set_digest@ == set_digest_of(self.digests@),
                public_inputs@ == outs + set_digest@.take(k as int),
            decreases 4 - k,
        {
            public_inputs.push(set_digest[k]);
            proof {
                assert(outs + set_digest@.take(k + 1)
                    =~= (outs + set_digest@.take(k as int)).push(set_digest@[k as int]));
            }
            k = k + 1;
        }
        proof {
            assert(set_digest@.take(4) =~= set_digest@);
        }
        Ok(ProofWithVK {
            proof: ProofData { public_inputs },
            vk: [circuit_vk[0], circuit_vk[1], circuit_vk[2], circuit_vk[3]],
        })
    }
}

/// A testing variant of the circuit-set framework: its set holds, besides
/// the circuits under test, one extra "input" circuit whose proofs carry
/// arbitrary chosen public inputs, so recursion layers can be exercised
/// without generating real child proofs.
pub struct TestingRecursiveCircuits {
    pub recursive_circuits: RecursiveCircuits,
    pub input_vk: [u64; 4],
}

impl TestingRecursiveCircuits {
    /// The input circuit's digest is the last member of the set.
    pub open spec fn wf(self) -> bool {
        self.recursive_circuits.digests@.len() >= 1
            && self.recursive_circuits.digests@.last() == self.input_vk
    }

    /// Build the testing set from the circuits under test; the extra input
    /// circuit's digest is derived from the member digests.
    pub fn new_from_circuit_digests(digests: Vec<[u64; 4]>) -> (r: Self)
        ensures
            r.recursive_circuits.digests@.len() == digests@.len() + 1,
            forall|i: int| 0 <= i < digests@.len()
                ==> r.recursive_circuits.digests@[i] == digests@[i],
            r.recursive_circuits.digests@.last() == r.input_vk,
            r.wf(),
    {
        let mut words: Vec<u64> = Vec::new();
        let mut i: usize = 0;
        while i < digests.len()
            invariant
                i <= digests@.len(),
                words@.len() == 4 * i,
            decreases digests@.len() - i,
        {
            words.push(digests[i][0]);
            words.push(digests[i][1]);
            words.push(digests[i][2]);
            words.push(digests[i][3]);
            i = i + 1;
        }
        let input_vk = node_hash(&words);
        let mut all = digests;
        all.push(input_vk);
        TestingRecursiveCircuits {
            recursive_circuits: RecursiveCircuits { digests: all },
            input_vk,
        }
    }

    /// The set of circuits bound to this testing framework.
    pub fn get_recursive_circuit_set(&self) -> (r: &RecursiveCircuits)
        ensures
            r == &self.recursive_circuits,
    {
        &self.recursive_circuits
    }

    /// A proof of the input circuit carrying the given public inputs, usable
    /// as a child wherever this set is verified against.
    pub fn generate_input_proof(&self, public_inputs: Vec<u64>) -> (r: ProofWithVK)
        requires
            self.wf(),
        ensures
            r.proof.public_inputs@ == public_inputs@,
            r.vk@ == self.input_vk@,
            self.recursive_circuits.contains_digest(r.vk@),
    {
        let r = ProofWithVK {
            proof: ProofData { public_inputs },
            vk: [self.input_vk[0], self.input_vk[1], self.input_vk[2], self.input_vk[3]],
        };
        proof {
            assert(r.vk@ =~= self.input_vk@);
            let n = self.recursive_circuits.digests@.len() as int;
            assert(self.recursive_circuits.digests@[n - 1] == self.input_vk);
        }
        r
    }

    /// The verifier key the input proofs are produced under.
    pub fn verifier_data_for_input_proofs(&self) -> (r: [u64; 4])
        ensures
            r@ == self.input_vk@,
    {
        [self.input_vk[0], self.input_vk[1], self.input_vk[2], self.input_vk[3]]
    }

    /// Produce a proof of a circuit under test from input proofs.
    pub fn generate_proof(
        &self,
        circuit_vk: &[u64; 4],
        child_proofs: &Vec<ProofWithVK>,
        outputs: Vec<u64>,
    ) -> (r: Result<ProofWithVK, ProofError>)
        ensures
            r is Ok <==> (forall|i: int| 0 <= i < child_proofs@.len()
                ==> self.recursive_circuits.contains_digest(
                    (#[trigger] child_proofs@[i]).vk@,
                )),
            r is Ok ==> r->Ok_0.proof.public_inputs@
                == outputs@ + set_digest_of(self.recursive_circuits.digests@),
            r is Ok ==> r->Ok_0.vk@ == circuit_vk@,
    {
        self.recursive_circuits.generate_proof(circuit_vk, child_proofs, outputs)
    }
}

/// A proof accepted by the set-membership check is exactly one whose
/// verifier key's digest was registered in the set: a proof generated from a
/// circuit digest outside the set fails verification, and the same proof
/// passes against a set that includes its digest.
pub proof fn lemma_membership_is_decisive(
    s1: RecursiveCircuits,
    s2: RecursiveCircuits,
    p: ProofWithVK,
    i: int,
)
    requires
        !s1.contains_digest(p.vk@),
        0 <= i < s2.digests@.len(),
        s2.digests@[i]@ == p.vk@,
    ensures
        !(exists|j: int| 0 <= j < s1.digests@.len() && s1.digests@[j]@ == p.vk@),
        s2.contains_digest(p.vk@),
{
}

} // verus!
