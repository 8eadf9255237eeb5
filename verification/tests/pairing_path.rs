//! The pairing boundary exercised stage by stage: key parsing, proof
//! parsing, and a full pairing evaluation under a degenerate key whose
//! group elements are all the point at infinity (which serializes and
//! parses canonically).

use ark_bls12_381::{Bls12_381, G1Affine, G2Affine};
use ark_ff::Zero;
use ark_serialize::CanonicalSerialize;
use porep_verifier::challenges::LayerChallenges;
use porep_verifier::drg::{generate_public_inputs, setup, Error};
use porep_verifier::field::DomainElement;
use porep_verifier::identity::{check_replica_id, generate_replica_id};
use porep_verifier::orchestrator::verify_proof;
use porep_verifier::params::{PublicInputs, SetupParams, Tau, VerifierParameters};
use porep_verifier::utils::ApiVersion;

fn example_setup() -> SetupParams {
    SetupParams {
        nodes: 512,
        degree: 6,
        expansion_degree: 8,
        porep_id: [0u8; 32],
        layer_challenges: LayerChallenges::new(2, 1),
        api_version: ApiVersion::V1_1_0,
    }
}

// Inputs whose replica id is honestly bound to the commitments, so the
// identity gate passes and the pairing stage is reached.
fn bound_inputs(prover_id: &[u8; 32], ticket: &[u8; 32], porep_seed: &[u8; 32]) -> (PublicInputs, u64) {
    let comm_d = DomainElement::from_bytes([3u8; 32]);
    let comm_r = DomainElement::from_bytes([4u8; 32]);
    let mut sector_id = 0u64;
    loop {
        let id = generate_replica_id(prover_id, sector_id, ticket, &comm_d.bytes, porep_seed);
        // Keep the binding digest inside the mask range, so that the
        // checking side accepts the generated id.
        if check_replica_id(prover_id, sector_id, ticket, &comm_d.bytes, porep_seed, id) {
            let inputs = PublicInputs {
                replica_id: id,
                seed: [9u8; 32],
                tau: Some(Tau { comm_d, comm_r }),
                k: None,
            };
            return (inputs, sector_id);
        }
        sector_id += 1;
    }
}

fn infinity_vk_bytes(num_inputs: usize) -> Vec<u8> {
    let vk = ark_groth16::VerifyingKey::<Bls12_381> {
        alpha_g1: G1Affine::zero(),
        beta_g2: G2Affine::zero(),
        gamma_g2: G2Affine::zero(),
        delta_g2: G2Affine::zero(),
        gamma_abc_g1: vec![G1Affine::zero(); num_inputs + 1],
    };
    let mut out = Vec::new();
    vk.serialize(&mut out).expect("serialize key");
    out
}

fn infinity_proof_bytes() -> Vec<u8> {
    let proof = ark_groth16::Proof::<Bls12_381> {
        a: G1Affine::zero(),
        b: G2Affine::zero(),
        c: G1Affine::zero(),
    };
    let mut out = Vec::new();
    proof.serialize(&mut out).expect("serialize proof");
    out
}

// A parseable key with unparseable proof bytes: the failure must name
// the proof, not the key.
#[test]
fn bad_proof_bytes_after_good_key() {
    let prover_id = [0x11u8; 32];
    let ticket = [0x22u8; 32];
    let porep_seed = [0x99u8; 32];
    let (inputs, sector_id) = bound_inputs(&prover_id, &ticket, &porep_seed);
    let sp = example_setup();
    let pp = setup(&sp).expect("setup");
    let n = generate_public_inputs(&inputs, &pp, Some(0)).expect("assembly").len();
    let params = VerifierParameters {
        setup_params: sp,
        vk: infinity_vk_bytes(n),
        minimum_challenges: 1,
    };
    match verify_proof(&params, &[0xbe, 0xef], &inputs, &porep_seed, &prover_id, sector_id, &ticket)
    {
        Err(Error::InvalidProof) => {},
        other => panic!("expected a proof parse failure, got {:?}", other),
    }
}

// Parseable key and proof reach the pairing equation itself and come
// back with a verdict rather than an error.
#[test]
fn degenerate_pairing_reaches_verdict() {
    let prover_id = [0x11u8; 32];
    let ticket = [0x22u8; 32];
    let porep_seed = [0x99u8; 32];
    let (inputs, sector_id) = bound_inputs(&prover_id, &ticket, &porep_seed);
    let sp = example_setup();
    let pp = setup(&sp).expect("setup");
    let n = generate_public_inputs(&inputs, &pp, Some(0)).expect("assembly").len();
    let params = VerifierParameters {
        setup_params: sp,
        vk: infinity_vk_bytes(n),
        minimum_challenges: 1,
    };
    let verdict = verify_proof(
        &params,
        &infinity_proof_bytes(),
        &inputs,
        &porep_seed,
        &prover_id,
        sector_id,
        &ticket,
    );
    assert!(verdict.is_ok(), "the pairing stage must answer, got {:?}", verdict);
    // A key sized for the wrong input count is refused by the pairing
    // stage instead.
    let short = VerifierParameters {
        setup_params: sp,
        vk: infinity_vk_bytes(n - 1),
        minimum_challenges: 1,
    };
    match verify_proof(
        &short,
        &infinity_proof_bytes(),
        &inputs,
        &porep_seed,
        &prover_id,
        sector_id,
        &ticket,
    ) {
        Err(Error::PairingFailure) => {},
        other => panic!("expected the pairing stage to refuse the inputs, got {:?}", other),
    }
}
