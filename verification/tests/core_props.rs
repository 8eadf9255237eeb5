//! The library's stated properties exercised on concrete values.

use porep_verifier::challenges::{ChallengeRequirements, LayerChallenges};
use porep_verifier::drg::{
    generate_all_public_inputs, generate_public_inputs, satisfies_requirements, setup, Error,
};
use porep_verifier::field::DomainElement;
use porep_verifier::identity::{check_replica_id, generate_replica_id};
use porep_verifier::orchestrator::verify_proof;
use porep_verifier::params::{PublicInputs, SetupParams, Tau, VerifierParameters};
use porep_verifier::utils::ApiVersion;
use sha2::Digest;

fn example_setup(nodes: u64, layers: usize, max_count: usize) -> SetupParams {
    SetupParams {
        nodes,
        degree: 6,
        expansion_degree: 8,
        porep_id: [0u8; 32],
        layer_challenges: LayerChallenges::new(layers, max_count),
        api_version: ApiVersion::V1_1_0,
    }
}

fn example_inputs() -> PublicInputs {
    PublicInputs {
        replica_id: DomainElement::from_bytes([7u8; 32]),
        seed: [9u8; 32],
        tau: Some(Tau {
            comm_d: DomainElement::from_bytes([3u8; 32]),
            comm_r: DomainElement::from_bytes([4u8; 32]),
        }),
        k: None,
    }
}

// Example literal: 512 nodes, two layers of one challenge each give
// exactly two indices per partition, each inside the leaf range, and the
// derivation is repeatable.
#[test]
fn scenario_example_literal() {
    let lc = LayerChallenges::new(2, 1);
    let replica_id = DomainElement::from_bytes([7u8; 32]);
    let seed = [9u8; 32];
    let first = lc.derive(512, &replica_id, &seed, 0);
    assert_eq!(first.len(), 2);
    for &c in first.iter() {
        assert!(c < 512);
        assert!(c >= 1);
    }
    let again = lc.derive(512, &replica_id, &seed, 0);
    assert_eq!(first, again);
}

// Determinism across distinct construction paths of equal inputs.
#[test]
fn derive_deterministic_across_calls() {
    let lc = LayerChallenges::new(3, 2);
    let replica_id = DomainElement::from_bytes([0xabu8; 32]);
    let seed = [0x55u8; 32];
    let a = lc.derive(2048, &replica_id, &seed, 3);
    let b = LayerChallenges::new(3, 2).derive(2048, &DomainElement::from_bytes([0xabu8; 32]), &seed, 3);
    assert_eq!(a, b);
    assert_eq!(a.len(), 6);
}

// Different partitions draw from disjoint slot numbers and so (almost
// surely) differ.
#[test]
fn derive_partitions_differ() {
    let lc = LayerChallenges::new(2, 4);
    let replica_id = DomainElement::from_bytes([1u8; 32]);
    let seed = [2u8; 32];
    let p0 = lc.derive(4096, &replica_id, &seed, 0);
    let p1 = lc.derive(4096, &replica_id, &seed, 1);
    assert_ne!(p0, p1);
}

// Range invariant on a non-power-of-two leaf count.
#[test]
fn derive_range_invariant() {
    let lc = LayerChallenges::new(2, 8);
    let replica_id = DomainElement::from_bytes([0x31u8; 32]);
    let seed = [0x77u8; 32];
    for leaves in [3usize, 5, 100, 513] {
        let ch = lc.derive(leaves, &replica_id, &seed, 1);
        assert_eq!(ch.len(), 16);
        for &c in ch.iter() {
            assert!(1 <= c && c < leaves);
        }
    }
}

fn identity_digest(
    prover_id: &[u8; 32],
    sector_id: u64,
    ticket: &[u8; 32],
    comm_d: &[u8],
    porep_seed: &[u8; 32],
) -> [u8; 32] {
    let mut msg = Vec::new();
    msg.extend_from_slice(prover_id);
    msg.extend_from_slice(&sector_id.to_be_bytes());
    msg.extend_from_slice(ticket);
    msg.extend_from_slice(comm_d);
    msg.extend_from_slice(porep_seed);
    sha2::Sha256::digest(&msg).into()
}

// Identity round trip: whenever the digest's top two bits are clear,
// `check` accepts what `generate` produced.
#[test]
fn identity_round_trip() {
    let prover_id = [0x11u8; 32];
    let ticket = [0x22u8; 32];
    let comm_d = [0x33u8; 32];
    let porep_seed = [0x44u8; 32];
    let mut tried = 0u64;
    let mut hit = false;
    for sector_id in 0u64..64 {
        let d = identity_digest(&prover_id, sector_id, &ticket, &comm_d, &porep_seed);
        let id = generate_replica_id(&prover_id, sector_id, &ticket, &comm_d, &porep_seed);
        let ok = check_replica_id(&prover_id, sector_id, &ticket, &comm_d, &porep_seed, id);
        if d[31] < 0x40 {
            assert!(ok, "mask-range digest must round-trip");
            hit = true;
        }
        tried += 1;
    }
    assert!(hit && tried == 64);
}

// The designed asymmetry: a digest with either top bit set makes the
// reduced id and the masked digest disagree.
#[test]
fn identity_asymmetry_outside_mask_range() {
    let prover_id = [0x11u8; 32];
    let ticket = [0x22u8; 32];
    let comm_d = [0x33u8; 32];
    let porep_seed = [0x44u8; 32];
    let mut seen = false;
    for sector_id in 0u64..64 {
        let d = identity_digest(&prover_id, sector_id, &ticket, &comm_d, &porep_seed);
        if d[31] >= 0x40 {
            let id = generate_replica_id(&prover_id, sector_id, &ticket, &comm_d, &porep_seed);
            let ok = check_replica_id(&prover_id, sector_id, &ticket, &comm_d, &porep_seed, id);
            assert!(!ok, "a digest above the mask range cannot round-trip");
            seen = true;
        }
    }
    assert!(seen);
}

// Tamper sensitivity: flipping any single byte of any bound field makes
// the check reject an unmodified generate output.
#[test]
fn identity_tamper_sensitivity() {
    let prover_id = [0x11u8; 32];
    let ticket = [0x22u8; 32];
    let comm_d = [0x33u8; 32];
    let porep_seed = [0x44u8; 32];
    let sector_id = 2u64;
    let id = generate_replica_id(&prover_id, sector_id, &ticket, &comm_d, &porep_seed);
    // The untampered pair must agree, so the rejections below mean
    // something; this sector id's digest sits inside the mask range.
    assert!(identity_digest(&prover_id, sector_id, &ticket, &comm_d, &porep_seed)[31] < 0x40);
    assert!(check_replica_id(&prover_id, sector_id, &ticket, &comm_d, &porep_seed, id));
    for i in 0..32 {
        let mut t = prover_id;
        t[i] ^= 0x01;
        assert!(!check_replica_id(&t, sector_id, &ticket, &comm_d, &porep_seed, id));
        let mut t = ticket;
        t[i] ^= 0x80;
        assert!(!check_replica_id(&prover_id, sector_id, &t, &comm_d, &porep_seed, id));
        let mut t = comm_d;
        t[i] ^= 0x10;
        assert!(!check_replica_id(&prover_id, sector_id, &ticket, &t, &porep_seed, id));
        let mut t = porep_seed;
        t[i] ^= 0x02;
        assert!(!check_replica_id(&prover_id, sector_id, &ticket, &comm_d, &t, id));
    }
    assert!(!check_replica_id(&prover_id, sector_id + 1, &ticket, &comm_d, &porep_seed, id));
}

// Requirement gating: false strictly below the floor, true at equality
// and above.
#[test]
fn requirement_gating() {
    let sp = example_setup(512, 2, 3);
    let pp = setup(&sp).expect("setup");
    // 2 layers x 3 challenges = 6 per partition.
    assert!(satisfies_requirements(&pp, &ChallengeRequirements { minimum_challenges: 6 }, 1));
    assert!(satisfies_requirements(&pp, &ChallengeRequirements { minimum_challenges: 5 }, 1));
    assert!(!satisfies_requirements(&pp, &ChallengeRequirements { minimum_challenges: 7 }, 1));
    assert!(satisfies_requirements(&pp, &ChallengeRequirements { minimum_challenges: 12 }, 2));
    assert!(!satisfies_requirements(&pp, &ChallengeRequirements { minimum_challenges: 13 }, 2));
    assert!(!satisfies_requirements(&pp, &ChallengeRequirements { minimum_challenges: 1 }, 0));
}

// Missing commitments are refused before anything else.
#[test]
fn inputs_missing_tau() {
    let sp = example_setup(512, 2, 1);
    let pp = setup(&sp).expect("setup");
    let mut inputs = example_inputs();
    inputs.tau = None;
    match generate_public_inputs(&inputs, &pp, Some(0)) {
        Err(Error::MissingCommitment) => {},
        other => panic!("expected a missing-commitment error, got {:?}", other.map(|v| v.len())),
    }
}

// The assembled vector leads with the replica id and the commitments and
// carries eighteen elements per challenge.
#[test]
fn inputs_layout() {
    let sp = example_setup(512, 2, 1);
    let pp = setup(&sp).expect("setup");
    let inputs = example_inputs();
    let v = generate_public_inputs(&inputs, &pp, Some(0)).expect("assembly");
    assert_eq!(v.len(), 3 + 2 * 18);
    assert_eq!(v[0], inputs.replica_id);
    assert_eq!(v[1], inputs.tau.unwrap().comm_d);
    assert_eq!(v[2], inputs.tau.unwrap().comm_r);
    // Each challenge block repeats the challenge's field element at its
    // first and last three positions.
    let lc = LayerChallenges::new(2, 1);
    let ch = lc.derive(512, &inputs.replica_id, &inputs.seed, 0);
    for (b, &c) in ch.iter().enumerate() {
        let base = 3 + 18 * b;
        let fe = DomainElement::from_u64(c as u64);
        assert_eq!(v[base], fe);
        assert_eq!(v[base + 15], fe);
        assert_eq!(v[base + 16], fe);
        assert_eq!(v[base + 17], fe);
    }
}

// Partition-order stability: the batch assembly equals the sequential
// per-partition recomputation, element for element.
#[test]
fn partition_order_stability() {
    let sp = example_setup(1024, 2, 2);
    let pp = setup(&sp).expect("setup");
    let inputs = example_inputs();
    let partitions = 3usize;
    let all = generate_all_public_inputs(&inputs, &pp, partitions).expect("batch");
    assert_eq!(all.len(), partitions);
    for k in 0..partitions {
        let alone = generate_public_inputs(&inputs, &pp, Some(k)).expect("single");
        assert_eq!(all[k], alone, "partition {} differs", k);
    }
}

// Identity mismatch lands in a rejection before any pairing work: even
// unparseable key and proof bytes still give a plain `false`.
#[test]
fn orchestrator_rejects_before_pairing() {
    let params = VerifierParameters {
        setup_params: example_setup(512, 2, 1),
        vk: vec![0xde, 0xad],
        minimum_challenges: 1,
    };
    let inputs = example_inputs();
    let verdict = verify_proof(
        &params,
        &[0xbe, 0xef],
        &inputs,
        &[0x99u8; 32],
        &[0x11u8; 32],
        5,
        &[0x22u8; 32],
    )
    .expect("an identity mismatch is a verdict, not an error");
    assert!(!verdict);
}

// With the identity intact, unparseable verifying-key bytes surface as a
// deserialization error, after the requirement gate.
#[test]
fn orchestrator_rejects_bad_key_bytes() {
    let prover_id = [0x11u8; 32];
    let ticket = [0x22u8; 32];
    let porep_seed = [0x99u8; 32];
    let sector_id = 5u64;
    let mut inputs = example_inputs();
    // Bind the replica id to the commitments so the identity gate passes:
    // find a sector id whose digest sits inside the mask range.
    let mut sid = sector_id;
    loop {
        let comm_d = inputs.tau.unwrap().comm_d;
        let d = identity_digest(&prover_id, sid, &ticket, &comm_d.bytes, &porep_seed);
        if d[31] < 0x40 {
            inputs.replica_id =
                generate_replica_id(&prover_id, sid, &ticket, &comm_d.bytes, &porep_seed);
            break;
        }
        sid += 1;
    }
    let params = VerifierParameters {
        setup_params: example_setup(512, 2, 1),
        vk: vec![0xde, 0xad],
        minimum_challenges: 1,
    };
    match verify_proof(&params, &[0xbe, 0xef], &inputs, &porep_seed, &prover_id, sid, &ticket) {
        Err(Error::InvalidVerifyingKey) => {},
        other => panic!("expected a key parse failure, got {:?}", other),
    }
    // An under-provisioned setup is refused before any parsing.
    let starved = VerifierParameters {
        setup_params: example_setup(512, 2, 1),
        vk: vec![0xde, 0xad],
        minimum_challenges: 3,
    };
    match verify_proof(&starved, &[0xbe, 0xef], &inputs, &porep_seed, &prover_id, sid, &ticket) {
        Err(Error::UnsatisfiedRequirement) => {},
        other => panic!("expected a requirement failure, got {:?}", other),
    }
}

// A setup that disagrees with the protocol's fixed degrees is refused.
#[test]
fn setup_rejects_wrong_degrees() {
    let mut sp = example_setup(512, 2, 1);
    sp.degree = 5;
    match setup(&sp) {
        Err(Error::InvalidSetupParams) => {},
        other => panic!("expected an invalid-setup error, got {:?}", other.map(|_| ())),
    }
    let mut sp = example_setup(512, 2, 1);
    sp.expansion_degree = 4;
    assert!(setup(&sp).is_err());
    let sp = example_setup(2, 2, 1);
    assert!(setup(&sp).is_err());
}
