//! The ERC20 aggregation pipeline: storage leaf reward math, state
//! binding, adjacent-range merging, revelation bound clamping, and the
//! circuit-set framework around them.

use ethers_core::types::U256;
use mrp2_circuits::bundle::{ProofData, ProofWithVK};
use mrp2_circuits::circuit_set::{RecursiveCircuits, TestingRecursiveCircuits};
use mrp2_circuits::erc20_block::{
    BlockPublicInputs, CircuitInput as BlockCircuitInput, Inputs, Parameters as BlockParameters,
};
use mrp2_circuits::erc20_state::{Parameters as StateParameters, StateCircuit, StateCircuitInput};
use mrp2_circuits::erc20_storage::{
    CircuitInput as StorageCircuitInput, Parameters as StorageParameters,
    PublicInputs as StorageInputs,
};
use mrp2_circuits::hash::node_hash;
use mrp2_circuits::revelation::{
    empty_merkle_root, BlockDbPublicInputs, BuilderParams, Parameters as RevelationParameters,
    RevelationCircuit, RevelationPublicInputs, RevelationRecursiveInput,
};
use mrp2_circuits::query2_revelation::{
    Query2BlockPublicInputs, RevelationCircuit as Query2RevelationCircuit,
};
use mrp2_circuits::u256::UInt256;
use rand::{thread_rng, Rng};

fn to_uint256(v: U256) -> UInt256 {
    let mut bytes = [0u8; 32];
    v.to_little_endian(&mut bytes);
    let mut limbs = [0u32; 8];
    for i in 0..8 {
        limbs[i] = u32::from_le_bytes([
            bytes[4 * i],
            bytes[4 * i + 1],
            bytes[4 * i + 2],
            bytes[4 * i + 3],
        ]);
    }
    UInt256 { limbs }
}

fn words_to_u256(words: &[u64]) -> U256 {
    let mut bytes = [0u8; 32];
    for i in 0..8 {
        bytes[4 * i..4 * i + 4].copy_from_slice(&(words[i] as u32).to_le_bytes());
    }
    U256::from_little_endian(&bytes)
}

#[test]
fn test_commitment_hash_reference_vector() {
    // The commitment hash of an empty word sequence is the well-known
    // Keccak-256 digest of the empty byte string, read as 4 words.
    let h = node_hash(&Vec::new());
    assert_eq!(h[0], 0x3C23_F786_0146_D2C5);
    assert_eq!(h[1], 0xC003_C7DC_B27D_7E92);
    assert_eq!(h[2], 0x3B27_82CA_53B6_00E5);
    assert_eq!(h[3], 0x70A4_855D_04D8_FA7B);
}

#[test]
fn test_query_erc20_storage_leaf_circuit() {
    let mut rng = thread_rng();
    let address: [u64; 5] = [rng.gen::<u32>() as u64; 5];

    // Leave room so the multiplication cannot overflow.
    let max_total_supply = U256::MAX >> 16;
    let value = U256::from(rng.gen::<u128>());
    let total_supply = (U256::from(rng.gen::<u128>()) | value) & max_total_supply;
    let value = value & total_supply;
    assert!(value <= total_supply);
    let rewards_rate = U256::from(rng.gen::<u16>());
    let exp_query_results = rewards_rate * value / total_supply;

    let params = StorageParameters::build();
    let proof = params
        .generate_proof(StorageCircuitInput::new_leaf(
            address,
            address,
            to_uint256(value),
            to_uint256(total_supply),
            to_uint256(rewards_rate),
        ))
        .unwrap();
    let pi = StorageInputs::from_slice(
        &ProofWithVK::deserialize(&proof).unwrap().proof.public_inputs
            [..StorageInputs::total_len()],
    );

    assert_eq!(pi.query_user_address_raw(), address.to_vec());
    assert_eq!(words_to_u256(&pi.query_results_raw()), exp_query_results);
    assert_eq!(words_to_u256(&pi.query_rewards_rate_raw()), rewards_rate);

    // A multiplication overflow is caught, not truncated.
    let overflowing = params.generate_proof(StorageCircuitInput::new_leaf(
        address,
        address,
        to_uint256(U256::max_value()),
        to_uint256(total_supply),
        to_uint256(U256::max_value()),
    ));
    assert!(
        overflowing.is_err(),
        "leaf storage circuit didn't catch overflow"
    );

    // A zero total supply is caught as a division by zero.
    let div_zero = params.generate_proof(StorageCircuitInput::new_leaf(
        address,
        address,
        to_uint256(U256::one()),
        to_uint256(U256::zero()),
        to_uint256(U256::one()),
    ));
    assert!(
        div_zero.is_err(),
        "leaf storage circuit didn't catch division by zero"
    );

    // When the held address differs from the queried one, the exposed
    // result is zero.
    let other: [u64; 5] = [1, 2, 3, 4, 5];
    let proof = params
        .generate_proof(StorageCircuitInput::new_leaf(
            address,
            other,
            to_uint256(value),
            to_uint256(total_supply),
            to_uint256(rewards_rate),
        ))
        .unwrap();
    let pi = StorageInputs::from_slice(
        &ProofWithVK::deserialize(&proof).unwrap().proof.public_inputs
            [..StorageInputs::total_len()],
    );
    assert_eq!(words_to_u256(&pi.query_results_raw()), U256::zero());
}

#[test]
fn test_query_erc20_storage_inner_node_circuit() {
    let params = StorageParameters::build();
    let address: [u64; 5] = [7, 7, 7, 7, 7];
    let leaf = params
        .generate_proof(StorageCircuitInput::new_leaf(
            address,
            address,
            to_uint256(U256::from(10u64)),
            to_uint256(U256::from(100u64)),
            to_uint256(U256::from(50u64)),
        ))
        .unwrap();
    let child_pi = StorageInputs::from_slice(
        &ProofWithVK::deserialize(&leaf).unwrap().proof.public_inputs
            [..StorageInputs::total_len()],
    );
    let unproved = node_hash(&vec![42u64]);

    for proved_is_right in [true, false] {
        let inner = params
            .generate_proof(
                StorageCircuitInput::new_inner_node(&leaf, unproved, proved_is_right).unwrap(),
            )
            .unwrap();
        let pi = StorageInputs::from_slice(
            &ProofWithVK::deserialize(&inner).unwrap().proof.public_inputs
                [..StorageInputs::total_len()],
        );
        // The root hashes sibling and child in tree order.
        let mut preimage: Vec<u64> = Vec::new();
        if proved_is_right {
            preimage.extend_from_slice(&unproved);
            preimage.extend_from_slice(&child_pi.root_hash_raw());
        } else {
            preimage.extend_from_slice(&child_pi.root_hash_raw());
            preimage.extend_from_slice(&unproved);
        }
        let exp_c = node_hash(&preimage);
        assert_eq!(&pi.root_hash_raw()[..], &exp_c[..]);
        // Everything else passes through.
        assert_eq!(pi.query_user_address_raw(), child_pi.query_user_address_raw());
        assert_eq!(pi.query_results_raw(), child_pi.query_results_raw());
        assert_eq!(pi.query_rewards_rate_raw(), child_pi.query_rewards_rate_raw());
    }
}

#[test]
fn test_query_erc20_storage_api() {
    let params = StorageParameters::build();
    let mut rng = thread_rng();
    let address: [u64; 5] = [rng.gen::<u32>() as u64; 5];
    let value = U256::from(rng.gen::<u64>());
    let total_supply = U256::from(rng.gen::<u64>()) | U256::one();
    let rewards_rate = U256::from(rng.gen::<u64>());
    let leaf = params
        .generate_proof(StorageCircuitInput::new_leaf(
            address,
            address,
            to_uint256(value),
            to_uint256(total_supply),
            to_uint256(rewards_rate),
        ))
        .unwrap();
    assert_eq!(
        ProofWithVK::deserialize(&leaf).unwrap().vk,
        params.leaf_circuit
    );
    let unproved = node_hash(&vec![16u64]);
    let inner = params
        .generate_proof(StorageCircuitInput::new_inner_node(&leaf, unproved, false).unwrap())
        .unwrap();
    assert_eq!(
        ProofWithVK::deserialize(&inner).unwrap().vk,
        params.inner_node_circuit
    );
}

fn state_proof(
    storage_params: &StorageParameters,
    state_params: &StateParameters,
    block_set: &RecursiveCircuits,
    block_number: u64,
    smart_contract_address: [u64; 5],
    user_address: [u64; 5],
    value: u64,
) -> Vec<u8> {
    let storage_proof = storage_params
        .generate_proof(StorageCircuitInput::new_leaf(
            user_address,
            user_address,
            to_uint256(U256::from(value)),
            to_uint256(U256::from(145_648u64)),
            to_uint256(U256::from(34u64)),
        ))
        .unwrap();
    let circuit = StateCircuit {
        block_number,
        length_slot: 42,
        mapping_slot: 24,
        smart_contract_address,
        path: Vec::new(),
    };
    state_params
        .generate_proof(block_set, &StateCircuitInput { circuit, storage_proof })
        .unwrap()
}

#[test]
fn test_query_erc20_state_circuit() {
    let storage_params = StorageParameters::build();
    let state_params = StateParameters::build(storage_params.get_storage_circuit_set());
    let block_params = BlockParameters::build(&state_params);
    let smc: [u64; 5] = [5, 6, 7, 8, 9];
    let user: [u64; 5] = [10, 11, 12, 13, 14];

    let proof = state_proof(
        &storage_params,
        &state_params,
        block_params.get_block_circuit_set(),
        123_456,
        smc,
        user,
        1_000,
    );
    let pi = BlockPublicInputs::from_slice(
        &ProofWithVK::deserialize(&proof).unwrap().proof.public_inputs
            [..BlockPublicInputs::total_len()],
    );
    assert_eq!(pi.block_number(), 123_456);
    assert_eq!(pi.range(), 1);
    assert_eq!(pi.smart_contract_address_raw(), smc.to_vec());
    assert_eq!(pi.user_address_raw(), user.to_vec());
    assert_eq!(pi.mapping_slot_raw(), vec![24]);
    assert_eq!(pi.storage_slot_length_raw(), vec![42]);
}

#[test]
fn test_query_erc20_state_parameters() {
    let storage_params = StorageParameters::build();
    let state_params = StateParameters::build(storage_params.get_storage_circuit_set());
    let block_params = BlockParameters::build(&state_params);
    let proof = state_proof(
        &storage_params,
        &state_params,
        block_params.get_block_circuit_set(),
        77,
        [1; 5],
        [2; 5],
        5,
    );
    let bundle = ProofWithVK::deserialize(&proof).unwrap();
    assert_eq!(bundle.vk, state_params.circuit_digest());
    // The proof carries the block set's digest after its public inputs.
    let pis = &bundle.proof.public_inputs;
    let set_digest = block_params.get_block_circuit_set().get_circuit_set_digest();
    assert_eq!(&pis[pis.len() - 4..], &set_digest[..]);
}

#[test]
fn test_query_erc20_block_circuit_api() {
    const BLOCK_NUMBER: u64 = 123_456;
    let smc: [u64; 5] = [21, 22, 23, 24, 25];
    let user: [u64; 5] = [31, 32, 33, 34, 35];

    let storage_params = StorageParameters::build();
    let state_params = StateParameters::build(storage_params.get_storage_circuit_set());
    let block_params = BlockParameters::build(&state_params);
    let block_set = block_params.get_block_circuit_set();

    let left_leaf_proof = state_proof(
        &storage_params,
        &state_params,
        block_set,
        BLOCK_NUMBER,
        smc,
        user,
        100,
    );
    let right_leaf_proof = state_proof(
        &storage_params,
        &state_params,
        block_set,
        BLOCK_NUMBER + 1,
        smc,
        user,
        200,
    );

    let left_pi = BlockPublicInputs::from_slice(
        &ProofWithVK::deserialize(&left_leaf_proof).unwrap().proof.public_inputs
            [..BlockPublicInputs::total_len()],
    );
    let right_pi = BlockPublicInputs::from_slice(
        &ProofWithVK::deserialize(&right_leaf_proof).unwrap().proof.public_inputs
            [..BlockPublicInputs::total_len()],
    );

    println!("leaf proofs built");

    let full_node_proof = block_params
        .generate_proof(BlockCircuitInput::new_full_node(&left_leaf_proof, &right_leaf_proof).unwrap())
        .unwrap();
    block_params.verify_proof(&full_node_proof).unwrap();

    let full_node_pi = BlockPublicInputs::from_slice(
        &ProofWithVK::deserialize(&full_node_proof).unwrap().proof.public_inputs
            [..BlockPublicInputs::total_len()],
    );

    // The merged result is the sum of the children's results.
    assert_eq!(
        words_to_u256(&full_node_pi.query_results_raw()),
        words_to_u256(&left_pi.query_results_raw()) + words_to_u256(&right_pi.query_results_raw())
    );
    // The merged range covers both children and ends at the right child.
    assert_eq!(full_node_pi.block_number(), BLOCK_NUMBER + 1);
    assert_eq!(full_node_pi.range(), 2);

    println!("full node proof built");

    let sibling_hash = node_hash(&b"ernesto".iter().map(|b| *b as u64).collect());
    let partial_node_proof = block_params
        .generate_proof(
            BlockCircuitInput::new_partial_node(&full_node_proof, sibling_hash, true).unwrap(),
        )
        .unwrap();
    block_params.verify_proof(&partial_node_proof).unwrap();

    let partial_node_pi = BlockPublicInputs::from_slice(
        &ProofWithVK::deserialize(&partial_node_proof).unwrap().proof.public_inputs
            [..BlockPublicInputs::total_len()],
    );
    assert_eq!(
        words_to_u256(&partial_node_pi.query_results_raw()),
        words_to_u256(&full_node_pi.query_results_raw())
    );

    // Merging non-adjacent ranges must fail.
    let gap_proof = state_proof(
        &storage_params,
        &state_params,
        block_set,
        BLOCK_NUMBER + 10,
        smc,
        user,
        1,
    );
    assert!(block_params
        .generate_proof(BlockCircuitInput::new_full_node(&left_leaf_proof, &gap_proof).unwrap())
        .is_err());
}

#[test]
fn test_block_inputs_layout() {
    assert_eq!(Inputs::total_len(), 34);
    let fields = [
        Inputs::BlockNumber,
        Inputs::Range,
        Inputs::Root,
        Inputs::SmartContractAddress,
        Inputs::UserAddress,
        Inputs::MappingSlot,
        Inputs::StorageSlotLength,
        Inputs::QueryResult,
        Inputs::RewardsRate,
    ];
    let mut offset = 0usize;
    for f in fields {
        let (start, end) = f.range();
        assert_eq!(start, offset);
        assert_eq!(end - start, f.len());
        offset = end;
    }
    assert_eq!(offset, Inputs::total_len());
}

fn sample_db_proof(
    first_block: u64,
    latest_block: u64,
    root: [u64; 4],
    pinned_vk: [u64; 4],
    depth: usize,
) -> (Vec<u8>, BlockDbPublicInputs) {
    let init_root = empty_merkle_root(depth);
    let header = [9u64; 8];
    let db_pi = BlockDbPublicInputs::from_parts(&init_root, &root, first_block, latest_block, &header);
    let bundle = ProofWithVK {
        proof: ProofData {
            public_inputs: db_pi.inputs.clone(),
        },
        vk: pinned_vk,
    };
    (bundle.serialize(), db_pi)
}

#[test]
fn test_query_erc20_main_api() {
    const DEPTH: usize = 3;
    let smc: [u64; 5] = [41, 42, 43, 44, 45];
    let user: [u64; 5] = [51, 52, 53, 54, 55];

    let storage_params = StorageParameters::build();
    let state_params = StateParameters::build(storage_params.get_storage_circuit_set());
    let block_params = BlockParameters::build(&state_params);
    let block_set = block_params.get_block_circuit_set();

    // Aggregate blocks 48372 and 48373 into one range proof.
    let left = state_proof(&storage_params, &state_params, block_set, 48_372, smc, user, 12);
    let right = state_proof(&storage_params, &state_params, block_set, 48_373, smc, user, 34);
    let agg_proof = block_params
        .generate_proof(BlockCircuitInput::new_full_node(&left, &right).unwrap())
        .unwrap();
    let agg_pi = BlockPublicInputs::from_slice(
        &ProofWithVK::deserialize(&agg_proof).unwrap().proof.public_inputs
            [..BlockPublicInputs::total_len()],
    );
    let mut agg_root = [0u64; 4];
    agg_root.copy_from_slice(&agg_pi.root_raw());

    // The database covers blocks [48372, 48373] under the same root.
    let pinned_vk: [u64; 4] = [101, 102, 103, 104];
    let (db_proof, _) = sample_db_proof(48_372, 48_373, agg_root, pinned_vk, DEPTH);

    let query_set = RecursiveCircuits::new_from_circuit_digests(block_set.digests.clone());
    let db_set = RecursiveCircuits::new_from_circuit_digests(vec![pinned_vk]);
    let revelation_params = RevelationParameters::build(
        BuilderParams::new(query_set, db_set, pinned_vk),
        DEPTH,
    );

    // The query asks for more than the database holds: [123, 123456] is
    // clamped to [48372, 48373].
    let input = RevelationRecursiveInput::new(
        RevelationCircuit {
            query_min_block_number: 123,
            query_max_block_number: 123_456,
        },
        &agg_proof,
        &db_proof,
    )
    .unwrap();
    let final_proof = revelation_params.generate_proof(input).unwrap();
    let final_pi = RevelationPublicInputs::from_slice(
        &ProofWithVK::deserialize(&final_proof).unwrap().proof.public_inputs
            [..RevelationPublicInputs::total_len()],
    );
    assert_eq!(final_pi.block_number_raw(), vec![48_373]);
    assert_eq!(final_pi.range_raw(), vec![2]);
    assert_eq!(final_pi.min_block_number_raw(), vec![123]);
    assert_eq!(final_pi.max_block_number_raw(), vec![123_456]);
    assert_eq!(final_pi.smart_contract_address_raw(), smc.to_vec());
    assert_eq!(final_pi.user_address_raw(), user.to_vec());
    assert_eq!(final_pi.block_header_raw(), vec![9u64; 8]);
    assert_eq!(
        words_to_u256(&final_pi.query_results_raw()),
        words_to_u256(&agg_pi.query_results_raw())
    );

    // A proof from a verifier key outside the query set must fail.
    let foreign = ProofWithVK {
        proof: ProofData {
            public_inputs: agg_pi.inputs.clone(),
        },
        vk: [900, 901, 902, 903],
    }
    .serialize();
    let input = RevelationRecursiveInput::new(
        RevelationCircuit {
            query_min_block_number: 123,
            query_max_block_number: 123_456,
        },
        &foreign,
        &db_proof,
    )
    .unwrap();
    assert!(revelation_params.generate_proof(input).is_err());
}

#[test]
fn test_revelation_bound_clamping() {
    const DEPTH: usize = 4;
    // Database covers [10, 100]; the aggregation proof covers exactly
    // [max(10, 5), min(100, 200)] = [10, 100], so range = 91 at block 100.
    let root = node_hash(&vec![5u64]);
    let init = empty_merkle_root(DEPTH);
    let header = [3u64; 8];
    let db_pi = BlockDbPublicInputs::from_parts(&init, &root, 10, 100, &header);
    let agg_pi = BlockPublicInputs::from_parts(
        100,
        91,
        &root,
        &[1; 5],
        &[2; 5],
        3,
        4,
        &[7, 0, 0, 0, 0, 0, 0, 0],
        &[1, 0, 0, 0, 0, 0, 0, 0],
    );
    let circuit = RevelationCircuit {
        query_min_block_number: 5,
        query_max_block_number: 200,
    };
    let out = circuit.build(&db_pi, &agg_pi, DEPTH).unwrap();
    assert_eq!(out.block_number_raw(), vec![100]);
    assert_eq!(out.range_raw(), vec![91]);

    // A request inside the database's coverage keeps its own bounds:
    // [20, 90] stays [20, 90], so the aggregation must cover range 71.
    let agg_pi = BlockPublicInputs::from_parts(
        90,
        71,
        &root,
        &[1; 5],
        &[2; 5],
        3,
        4,
        &[7, 0, 0, 0, 0, 0, 0, 0],
        &[1, 0, 0, 0, 0, 0, 0, 0],
    );
    let circuit = RevelationCircuit {
        query_min_block_number: 20,
        query_max_block_number: 90,
    };
    assert!(circuit.build(&db_pi, &agg_pi, DEPTH).is_ok());

    // An aggregation proof covering the wrong range is rejected.
    let agg_pi = BlockPublicInputs::from_parts(
        90,
        70,
        &root,
        &[1; 5],
        &[2; 5],
        3,
        4,
        &[7, 0, 0, 0, 0, 0, 0, 0],
        &[1, 0, 0, 0, 0, 0, 0, 0],
    );
    assert!(circuit.build(&db_pi, &agg_pi, DEPTH).is_err());

    // A database that did not start from the empty tree is rejected.
    let bad_init = node_hash(&vec![6u64]);
    let bad_db = BlockDbPublicInputs::from_parts(&bad_init, &root, 10, 100, &header);
    let agg_pi = BlockPublicInputs::from_parts(
        90,
        71,
        &root,
        &[1; 5],
        &[2; 5],
        3,
        4,
        &[7, 0, 0, 0, 0, 0, 0, 0],
        &[1, 0, 0, 0, 0, 0, 0, 0],
    );
    assert!(circuit.build(&bad_db, &agg_pi, DEPTH).is_err());
}

#[test]
fn test_same_pi_len_for_query2_and_query2_erc20() {
    // The two revelation variants expose public-input vectors of the same
    // total length.
    const DEPTH: usize = 2;
    let root = node_hash(&vec![8u64]);
    let init = empty_merkle_root(DEPTH);
    let header = [1u64; 8];
    let db_pi = BlockDbPublicInputs::from_parts(&init, &root, 1, 50, &header);

    let erc20_agg = BlockPublicInputs::from_parts(
        50,
        50,
        &root,
        &[1; 5],
        &[2; 5],
        3,
        4,
        &[7, 0, 0, 0, 0, 0, 0, 0],
        &[1, 0, 0, 0, 0, 0, 0, 0],
    );
    let erc20_out = RevelationCircuit {
        query_min_block_number: 1,
        query_max_block_number: 50,
    }
    .build(&db_pi, &erc20_agg, DEPTH)
    .unwrap();

    let keys: Vec<[u64; 8]> = vec![[0, 0, 0, 0, 0, 0, 0, 11], [0, 0, 0, 0, 0, 0, 0, 12]];
    let mut digest = mrp2_circuits::digest::Digest::zero();
    for key in &keys {
        digest = digest.add(&mrp2_circuits::digest::digest_from_words(&key.to_vec()));
    }
    let mut q2_inputs: Vec<u64> = vec![50, 50];
    q2_inputs.extend_from_slice(&root);
    q2_inputs.extend_from_slice(&[1; 5]);
    q2_inputs.extend_from_slice(&[2; 8]);
    q2_inputs.push(3);
    q2_inputs.push(4);
    q2_inputs.extend_from_slice(&digest.coords);
    let q2_agg = Query2BlockPublicInputs::from_slice(&q2_inputs);
    let q2_out = Query2RevelationCircuit {
        packed_keys: keys,
        num_entries: 2,
        query_min_block_number: 1,
        query_max_block_number: 50,
    }
    .build(&db_pi, &q2_agg, DEPTH)
    .unwrap();

    assert_eq!(erc20_out.inputs.len(), q2_out.inputs.len());
    assert_eq!(erc20_out.inputs.len(), RevelationPublicInputs::total_len());
}

#[test]
fn test_query2_revelation_entry_rules() {
    const DEPTH: usize = 2;
    let root = node_hash(&vec![8u64]);
    let init = empty_merkle_root(DEPTH);
    let header = [1u64; 8];
    let db_pi = BlockDbPublicInputs::from_parts(&init, &root, 1, 50, &header);

    let keys: Vec<[u64; 8]> = vec![[0, 0, 0, 0, 0, 0, 0, 11], [0, 0, 0, 0, 0, 0, 0, 12]];
    let mut digest = mrp2_circuits::digest::Digest::zero();
    for key in &keys {
        digest = digest.add(&mrp2_circuits::digest::digest_from_words(&key.to_vec()));
    }
    let mut q2_inputs: Vec<u64> = vec![50, 50];
    q2_inputs.extend_from_slice(&root);
    q2_inputs.extend_from_slice(&[1; 5]);
    q2_inputs.extend_from_slice(&[2; 8]);
    q2_inputs.push(3);
    q2_inputs.push(4);
    q2_inputs.extend_from_slice(&digest.coords);
    let q2_agg = Query2BlockPublicInputs::from_slice(&q2_inputs);

    // The genuine entries are exposed in order, padded slots are zero.
    let out = Query2RevelationCircuit {
        packed_keys: keys.clone(),
        num_entries: 2,
        query_min_block_number: 1,
        query_max_block_number: 50,
    }
    .build(&db_pi, &q2_agg, DEPTH)
    .unwrap();
    assert_eq!(out.result_entries_raw(), vec![11, 12, 0, 0, 0]);

    // Out-of-order entries are rejected.
    let unordered: Vec<[u64; 8]> = vec![[0, 0, 0, 0, 0, 0, 0, 12], [0, 0, 0, 0, 0, 0, 0, 11]];
    assert!(Query2RevelationCircuit {
        packed_keys: unordered,
        num_entries: 2,
        query_min_block_number: 1,
        query_max_block_number: 50,
    }
    .build(&db_pi, &q2_agg, DEPTH)
    .is_err());

    // A count that does not match the exposed digest is rejected: padding
    // is excluded, so dropping one entry changes the recomputed digest.
    assert!(Query2RevelationCircuit {
        packed_keys: keys,
        num_entries: 1,
        query_min_block_number: 1,
        query_max_block_number: 50,
    }
    .build(&db_pi, &q2_agg, DEPTH)
    .is_err());
}

#[test]
fn test_circuit_set_membership_is_decisive() {
    // A proof generated under a digest outside the set fails verification,
    // and the same proof passes against a set that includes its digest.
    let member = node_hash(&vec![1u64]);
    let outsider = node_hash(&vec![2u64]);
    let set = RecursiveCircuits::new_from_circuit_digests(vec![member]);

    let proof = ProofWithVK {
        proof: ProofData {
            public_inputs: vec![1, 2, 3],
        },
        vk: outsider,
    };
    assert!(set.verify_proof_in_set(&proof).is_err());

    let wider = RecursiveCircuits::new_from_circuit_digests(vec![member, outsider]);
    assert!(wider.verify_proof_in_set(&proof).is_ok());

    // The pinned-circuit check accepts exactly the pinned key.
    assert!(RecursiveCircuits::verify_proof_fixed_circuit(&proof, &outsider).is_ok());
    assert!(RecursiveCircuits::verify_proof_fixed_circuit(&proof, &member).is_err());
}

fn run_testing_framework(num_verifiers: usize) {
    let under_test = node_hash(&vec![77u64]);
    let framework = TestingRecursiveCircuits::new_from_circuit_digests(vec![under_test]);
    let mut children = Vec::new();
    let mut rng = thread_rng();
    for _ in 0..num_verifiers {
        let pis: Vec<u64> = (0..4).map(|_| rng.gen()).collect();
        children.push(framework.generate_input_proof(pis));
    }
    let proof = framework
        .generate_proof(&under_test, &children, vec![5, 6, 7])
        .unwrap();
    // The proof exposes its outputs followed by the set digest.
    let set_digest = framework.get_recursive_circuit_set().get_circuit_set_digest();
    assert_eq!(&proof.proof.public_inputs[..3], &[5, 6, 7]);
    assert_eq!(&proof.proof.public_inputs[3..], &set_digest[..]);
}

#[test]
fn test_circuit_with_testing_framework_one_universal_verifier() {
    run_testing_framework(1);
}

#[test]
fn test_circuit_with_testing_framework_two_universal_verifier() {
    run_testing_framework(2);
}

#[test]
fn test_circuit_with_testing_framework_three_universal_verifier() {
    run_testing_framework(3);
}

#[test]
fn test_verifier_circuit_with_dummy_proofs() {
    // A circuit set's generated input proofs are recursively usable by any
    // verifier of that set, and by none built against another set.
    let framework = TestingRecursiveCircuits::new_from_circuit_digests(Vec::new());
    let p = framework.generate_input_proof(vec![1, 2, 3, 4]);
    assert!(framework
        .get_recursive_circuit_set()
        .verify_proof_in_set(&p)
        .is_ok());
    assert_eq!(p.vk, framework.verifier_data_for_input_proofs());

    let other = TestingRecursiveCircuits::new_from_circuit_digests(vec![node_hash(&vec![1u64])]);
    assert!(other
        .get_recursive_circuit_set()
        .verify_proof_in_set(&p)
        .is_err());

    // The fixed-circuit check pins the one input circuit.
    assert!(
        RecursiveCircuits::verify_proof_fixed_circuit(&p, &framework.verifier_data_for_input_proofs())
            .is_ok()
    );
}

#[test]
fn test_full_node_error_conditions() {
    let root = node_hash(&vec![1u64]);
    let near_max = [0xFFFF_FFFFu64; 8];
    let small = [1u64, 0, 0, 0, 0, 0, 0, 0];
    let rewards = [2u64, 0, 0, 0, 0, 0, 0, 0];

    // Two adjacent children whose result sum overflows 256 bits.
    let left = BlockPublicInputs::from_parts(10, 5, &root, &[1; 5], &[2; 5], 3, 4, &near_max, &rewards);
    let right = BlockPublicInputs::from_parts(12, 2, &root, &[1; 5], &[2; 5], 3, 4, &near_max, &rewards);
    assert!(mrp2_circuits::erc20_block::FullNodeCircuit::build(&left, &right).is_err());

    // Mismatched identity fields are refused.
    let left = BlockPublicInputs::from_parts(10, 5, &root, &[1; 5], &[2; 5], 3, 4, &small, &rewards);
    let right = BlockPublicInputs::from_parts(12, 2, &root, &[9; 5], &[2; 5], 3, 4, &small, &rewards);
    assert!(mrp2_circuits::erc20_block::FullNodeCircuit::build(&left, &right).is_err());

    // Non-adjacent ranges are refused.
    let right = BlockPublicInputs::from_parts(14, 2, &root, &[1; 5], &[2; 5], 3, 4, &small, &rewards);
    assert!(mrp2_circuits::erc20_block::FullNodeCircuit::build(&left, &right).is_err());

    // Adjacent ranges with matching fields merge.
    let right = BlockPublicInputs::from_parts(12, 2, &root, &[1; 5], &[2; 5], 3, 4, &small, &rewards);
    let merged = mrp2_circuits::erc20_block::FullNodeCircuit::build(&left, &right).unwrap();
    assert_eq!(merged.block_number(), 12);
    assert_eq!(merged.range(), 7);
}

#[test]
fn test_trie_node_size_limits() {
    let params = mrp2_circuits::mapping::build_circuits_params();
    // A leaf node beyond the configured maximum is refused.
    let too_long = mrp2_circuits::mapping::CircuitInput::new_leaf(vec![0u8; 137], 0, vec![1u8; 4]);
    assert!(mrp2_circuits::mapping::generate_proof(&params, too_long).is_err());
    // A branch node beyond the configured maximum is refused.
    let leaf = mrp2_circuits::mapping::generate_proof(
        &params,
        mrp2_circuits::mapping::CircuitInput::new_leaf(vec![0u8; 136], 0, vec![1u8; 4]),
    )
    .unwrap();
    let branch = mrp2_circuits::mapping::CircuitInput::new_branch(vec![0u8; 533], vec![leaf.clone()]);
    assert!(mrp2_circuits::mapping::generate_proof(&params, branch).is_err());
    // Children disagreeing on the mapping slot are refused.
    let other_slot = mrp2_circuits::mapping::generate_proof(
        &params,
        mrp2_circuits::mapping::CircuitInput::new_leaf(vec![0u8; 100], 1, vec![1u8; 4]),
    )
    .unwrap();
    let branch = mrp2_circuits::mapping::CircuitInput::new_branch(vec![0u8; 100], vec![leaf, other_slot]);
    assert!(mrp2_circuits::mapping::generate_proof(&params, branch).is_err());
}

#[test]
fn test_revelation_covers_block_zero() {
    const DEPTH: usize = 2;
    // The database covers [0, 9]; a proof covering all ten blocks has a
    // range one larger than its block number, reaching block 0 exactly.
    let root = node_hash(&vec![77u64]);
    let init = empty_merkle_root(DEPTH);
    let header = [6u64; 8];
    let db_pi = BlockDbPublicInputs::from_parts(&init, &root, 0, 9, &header);
    let agg_pi = BlockPublicInputs::from_parts(
        9,
        10,
        &root,
        &[1; 5],
        &[2; 5],
        3,
        4,
        &[7, 0, 0, 0, 0, 0, 0, 0],
        &[1, 0, 0, 0, 0, 0, 0, 0],
    );
    let circuit = RevelationCircuit {
        query_min_block_number: 0,
        query_max_block_number: 9,
    };
    let out = circuit.build(&db_pi, &agg_pi, DEPTH).unwrap();
    assert_eq!(out.block_number_raw(), vec![9]);
    assert_eq!(out.range_raw(), vec![10]);

    // A range even longer than that covers no block and is refused.
    let agg_pi = BlockPublicInputs::from_parts(
        9,
        11,
        &root,
        &[1; 5],
        &[2; 5],
        3,
        4,
        &[7, 0, 0, 0, 0, 0, 0, 0],
        &[1, 0, 0, 0, 0, 0, 0, 0],
    );
    assert!(circuit.build(&db_pi, &agg_pi, DEPTH).is_err());
}
