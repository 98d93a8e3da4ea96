//! Per-entry storage-tree circuits and the Merkle-Patricia trie family:
//! leaf commitments, inner-node hashing, digest accumulation, branch arity
//! selection and padding.

use mrp2_circuits::bundle::ProofWithVK;
use mrp2_circuits::digest::{digest_from_words, Digest};
use mrp2_circuits::hash::node_hash;
use mrp2_circuits::mapping::{
    self, build_circuits_params, select_branch_arity, MappingPublicInputs,
};
use mrp2_circuits::pack::pack_left_pad32;
use mrp2_circuits::query2_storage::{
    intermediate_node_hash, leaf_hash_for_mapping, CircuitInput, Parameters, PublicInputs,
};

fn digest_of_pi_words(words: &[u64]) -> Digest {
    Digest {
        coords: [words[0], words[1], words[2], words[3]],
    }
}

fn run_leaf(k: &[u8], v: &[u8]) -> PublicInputs {
    let params = Parameters::build();
    let proof = params
        .generate_proof(CircuitInput::new_leaf(k, v))
        .unwrap();
    let bundle = ProofWithVK::deserialize(&proof).unwrap();
    assert_eq!(bundle.vk, params.leaf_circuit);
    PublicInputs::from_slice(&bundle.proof.public_inputs[..PublicInputs::total_len()])
}

fn test_leaf(k: &[u8], v: &[u8]) {
    let pi = run_leaf(k, v);

    // The exposed root equals the independently computed reference hash.
    let exp_root = leaf_hash_for_mapping(k, v).unwrap();
    assert_eq!(&pi.root()[..], &exp_root[..]);

    // The owner field is the packed value, forwarded unchanged.
    let exp_owner = pack_left_pad32(v).unwrap();
    assert_eq!(pi.owner(), exp_owner);

    // The digest is the packed key's contribution.
    let exp_digest = digest_from_words(&pack_left_pad32(k).unwrap());
    assert_eq!(&pi.digest()[..], &exp_digest.coords[..]);
}

#[test]
fn test_leaf_whatever() {
    test_leaf(b"deadbeef", b"0badf00d");
}

#[test]
fn test_leaf_all0() {
    test_leaf(b"", b"");
}

#[test]
fn test_leaf_0_nonzero() {
    test_leaf(b"", b"a278bf");
}

#[test]
fn test_leaf_nonzero_zero() {
    test_leaf(b"1235", b"00");
}

#[test]
fn test_inner_node() {
    let k = b"012345";
    let v = b"900600";
    let params = Parameters::build();

    let left = params
        .generate_proof(CircuitInput::new_leaf(k, v))
        .unwrap();
    let middle = params
        .generate_proof(CircuitInput::new_leaf(k, v))
        .unwrap();

    let full = params
        .generate_proof(CircuitInput::new_full_node(&left, &middle).unwrap())
        .unwrap();
    let middle_ios = PublicInputs::from_slice(
        &ProofWithVK::deserialize(&full).unwrap().proof.public_inputs[..PublicInputs::total_len()],
    );

    // The node digest is the group sum of the leaf digests, and the group
    // is commutative: adding in either order gives the same element.
    let leaf_digest = digest_from_words(&pack_left_pad32(k).unwrap());
    let exp_node_digest = leaf_digest.add(&leaf_digest);
    let exp_other_node_digest = leaf_digest.add(&leaf_digest);
    let found = digest_of_pi_words(&middle_ios.digest());
    assert!(exp_node_digest.equals(&found));
    assert!(exp_other_node_digest.equals(&found));

    // The nested root hashes the two leaf roots in order.
    let leaf_root = leaf_hash_for_mapping(k, v).unwrap();
    let expected_hash = intermediate_node_hash(&leaf_root, &leaf_root);
    assert_eq!(&middle_ios.root()[..], &expected_hash[..]);

    // The owner is forwarded.
    assert_eq!(middle_ios.owner(), pack_left_pad32(v).unwrap());

    // A partial node over an untouched sibling: order matters for the root.
    let some_hash = node_hash(&b"jean-michel".iter().map(|b| *b as u64).collect());
    let top = params
        .generate_proof(CircuitInput::new_partial_node(&full, some_hash, true).unwrap())
        .unwrap();
    let top_ios = PublicInputs::from_slice(
        &ProofWithVK::deserialize(&top).unwrap().proof.public_inputs[..PublicInputs::total_len()],
    );

    let mut middle_root = [0u64; 4];
    middle_root.copy_from_slice(&middle_ios.root());
    let expected_hash = intermediate_node_hash(&some_hash, &middle_root);
    assert_eq!(&top_ios.root()[..], &expected_hash[..]);

    // Swapping the two children's hash order produces a different root.
    let wrong_hash = intermediate_node_hash(&middle_root, &some_hash);
    assert_ne!(&top_ios.root()[..], &wrong_hash[..]);

    // The owner is still forwarded through the partial node.
    assert_eq!(top_ios.owner(), pack_left_pad32(v).unwrap());
}

#[test]
fn test_api() {
    let some_hash = node_hash(&b"coucou".iter().map(|b| *b as u64).collect());
    let params = Parameters::build();

    let leaf1 = params
        .generate_proof(CircuitInput::new_leaf(b"jean", b"michel"))
        .unwrap();
    assert_eq!(
        ProofWithVK::deserialize(&leaf1).unwrap().vk,
        params.leaf_circuit
    );
    let leaf2 = params
        .generate_proof(CircuitInput::new_leaf(b"juan", b"michel"))
        .unwrap();
    assert_eq!(
        ProofWithVK::deserialize(&leaf2).unwrap().vk,
        params.leaf_circuit
    );

    let partial_inner = params
        .generate_proof(CircuitInput::new_partial_node(&leaf1, some_hash, false).unwrap())
        .unwrap();
    assert_eq!(
        ProofWithVK::deserialize(&partial_inner).unwrap().vk,
        params.partial_node_circuit
    );

    let full_inner = params
        .generate_proof(CircuitInput::new_full_node(&leaf2, &partial_inner).unwrap())
        .unwrap();
    assert_eq!(
        ProofWithVK::deserialize(&full_inner).unwrap().vk,
        params.full_node_circuit
    );
}

#[test]
fn test_serialization() {
    // A proof bundle parses back to exactly what was serialized.
    let params = Parameters::build();
    let leaf = params
        .generate_proof(CircuitInput::new_leaf(b"jean", b"michel"))
        .unwrap();
    let bundle = ProofWithVK::deserialize(&leaf).unwrap();
    let reencoded = bundle.serialize();
    assert_eq!(leaf, reencoded);
    let bundle2 = ProofWithVK::deserialize(&reencoded).unwrap();
    assert_eq!(bundle.proof.public_inputs, bundle2.proof.public_inputs);
    assert_eq!(bundle.vk, bundle2.vk);

    // A malformed encoding is rejected.
    let mut broken = reencoded.clone();
    broken.pop();
    assert!(ProofWithVK::deserialize(&broken).is_err());
    assert!(ProofWithVK::deserialize(&vec![1u8, 2, 3]).is_err());
}

fn mapping_leaf_proof(params: &mapping::PublicParameters, key: Vec<u8>, slot: u64) -> Vec<u8> {
    mapping::generate_proof(
        params,
        mapping::CircuitInput::new_leaf(vec![0x01, 0x02, 0x03], slot, key),
    )
    .unwrap()
}

#[test]
fn test_branch_logic() {
    let params = build_circuits_params();
    let slot = 0u64;

    // One real child selects the smallest supported arity.
    assert_eq!(select_branch_arity(1), Some(2));
    assert_eq!(select_branch_arity(2), Some(2));
    assert_eq!(select_branch_arity(3), Some(9));
    assert_eq!(select_branch_arity(9), Some(9));
    assert_eq!(select_branch_arity(10), Some(16));
    assert_eq!(select_branch_arity(16), Some(16));
    assert_eq!(select_branch_arity(0), None);
    assert_eq!(select_branch_arity(17), None);

    let leaf1 = mapping_leaf_proof(&params, vec![1u8; 20], slot);
    let leaf1_pi = MappingPublicInputs::from_slice(
        &ProofWithVK::deserialize(&leaf1).unwrap().proof.public_inputs
            [..MappingPublicInputs::total_len()],
    );
    let (_, ptr) = leaf1_pi.mpt_key_info();
    assert_eq!(ptr, 0);
    assert_eq!(leaf1_pi.n(), 1);

    // A branch over one real child uses the arity-2 circuit.
    let branch_node = vec![0x11u8; 100];
    let branch1 = mapping::generate_proof(
        &params,
        mapping::CircuitInput::new_branch(branch_node.clone(), vec![leaf1.clone()]),
    )
    .unwrap();
    let branch1_bundle = ProofWithVK::deserialize(&branch1).unwrap();
    assert_eq!(branch1_bundle.vk, params.branchs.b2);

    let check_public_input = |num_children: usize, proof_bytes: &Vec<u8>| {
        let leaf_digest = digest_of_pi_words(&leaf1_pi.accumulator());
        let mut exp_accumulator = Digest::zero();
        for _ in 0..num_children {
            exp_accumulator = exp_accumulator.add(&leaf_digest);
        }
        let branch_pub = MappingPublicInputs::from_slice(
            &ProofWithVK::deserialize(proof_bytes).unwrap().proof.public_inputs
                [..MappingPublicInputs::total_len()],
        );
        assert!(exp_accumulator.equals(&digest_of_pi_words(&branch_pub.accumulator())));
        assert_eq!(branch_pub.n(), num_children as u64);
        let (k1, p1) = leaf1_pi.mpt_key_info();
        let (kb, pb) = branch_pub.mpt_key_info();
        // The branch consumes exactly one nibble.
        assert_eq!(p1 + 1, pb);
        assert_eq!(k1, kb);
        assert_eq!(leaf1_pi.mapping_slot(), branch_pub.mapping_slot());
    };

    // Two real children: still the arity-2 circuit; the digest accumulates
    // exactly the two children.
    let branch2 = mapping::generate_proof(
        &params,
        mapping::CircuitInput::new_branch(branch_node.clone(), vec![leaf1.clone(), leaf1.clone()]),
    )
    .unwrap();
    assert_eq!(
        ProofWithVK::deserialize(&branch2).unwrap().vk,
        params.branchs.b2
    );
    check_public_input(2, &branch2);

    // Six real children: the arity-9 circuit, padded by duplicating the
    // first child; the padding is excluded from digest and count.
    let six = vec![leaf1.clone(); 6];
    let branch6 = mapping::generate_proof(
        &params,
        mapping::CircuitInput::new_branch(branch_node.clone(), six),
    )
    .unwrap();
    assert_eq!(
        ProofWithVK::deserialize(&branch6).unwrap().vk,
        params.branchs.b9
    );
    check_public_input(6, &branch6);

    // Sixteen children fit the largest arity; seventeen are refused.
    let sixteen = vec![leaf1.clone(); 16];
    let branch16 = mapping::generate_proof(
        &params,
        mapping::CircuitInput::new_branch(branch_node.clone(), sixteen),
    )
    .unwrap();
    assert_eq!(
        ProofWithVK::deserialize(&branch16).unwrap().vk,
        params.branchs.b16
    );
    check_public_input(16, &branch16);

    let seventeen = vec![leaf1.clone(); 17];
    assert!(mapping::generate_proof(
        &params,
        mapping::CircuitInput::new_branch(branch_node, seventeen),
    )
    .is_err());
}

#[test]
fn test_mapping_api() {
    let params = build_circuits_params();

    let key1 = vec![1u8; 4];
    let key2 = vec![3u8; 4];

    println!("Generating params...");
    println!("Proving leaf 1...");
    let leaf_proof1 = mapping_leaf_proof(&params, key1, 0);
    {
        let lp = ProofWithVK::deserialize(&leaf_proof1).unwrap();
        let pub1 = MappingPublicInputs::from_slice(
            &lp.proof.public_inputs[..MappingPublicInputs::total_len()],
        );
        let (_, ptr) = pub1.mpt_key_info();
        assert_eq!(ptr, 0);
    }

    println!("Proving leaf 2...");
    let leaf_proof2 = mapping_leaf_proof(&params, key2, 0);

    println!("Proving branch...");
    let branch_input =
        mapping::CircuitInput::new_branch(vec![0x22u8; 200], vec![leaf_proof1, leaf_proof2]);
    mapping::generate_proof(&params, branch_input).unwrap();
}

#[test]
fn test_extension_node() {
    let params = build_circuits_params();
    let leaf = mapping_leaf_proof(&params, vec![9u8; 10], 7);
    let ext = mapping::generate_proof(
        &params,
        mapping::CircuitInput::new_extension(vec![0x33u8; 50], 3, leaf.clone()),
    )
    .unwrap();
    let ext_pi = MappingPublicInputs::from_slice(
        &ProofWithVK::deserialize(&ext).unwrap().proof.public_inputs
            [..MappingPublicInputs::total_len()],
    );
    let leaf_pi = MappingPublicInputs::from_slice(
        &ProofWithVK::deserialize(&leaf).unwrap().proof.public_inputs
            [..MappingPublicInputs::total_len()],
    );
    // The pointer advances by the prefix length; everything else passes.
    let (lk, lp) = leaf_pi.mpt_key_info();
    let (ek, ep) = ext_pi.mpt_key_info();
    assert_eq!(lk, ek);
    assert_eq!(lp + 3, ep);
    assert_eq!(leaf_pi.n(), ext_pi.n());
    assert_eq!(leaf_pi.mapping_slot(), ext_pi.mapping_slot());
    assert_eq!(leaf_pi.accumulator(), ext_pi.accumulator());
    // An extension that would run the pointer past the key is refused.
    assert!(mapping::generate_proof(
        &params,
        mapping::CircuitInput::new_extension(vec![0x33u8; 50], 65, leaf),
    )
    .is_err());
}
