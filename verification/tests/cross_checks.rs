//! Bit-for-bit agreement with the prover-side sealing engine: challenge
//! derivation, graph parents and replica-identity binding must reproduce
//! the reference implementation exactly.

use filecoin_hashers::poseidon::PoseidonHasher;
use filecoin_hashers::sha256::Sha256Hasher;
use filecoin_hashers::{Domain, Hasher};
use porep_verifier::field::DomainElement;
use porep_verifier::graph::VerifierStackedBucketGraph;
use porep_verifier::identity::check_replica_id;
use porep_verifier::params::PublicInputs;
use porep_verifier::utils::ApiVersion;
use storage_proofs_core::drgraph::Graph;
use storage_proofs_porep::stacked::{Challenges, StackedBucketGraph};

type RefDomain = <PoseidonHasher as Hasher>::Domain;
type RefPieceDomain = <Sha256Hasher as Hasher>::Domain;

const POREP_ID: [u8; 32] = [55u8; 32];

// An Fr-safe 32-byte value (the top byte stays clear).
fn safe_bytes(tag: u8) -> [u8; 32] {
    let mut b = [tag; 32];
    b[31] = 0;
    b
}

// Challenge derivation matches the reference engine slot for slot.
#[test]
fn challenges_match_reference() {
    let nodes = 512usize;
    let layers = 2usize;
    let max_count = 3usize;
    let count = layers * max_count;
    let rid_bytes = safe_bytes(0x5a);
    let seed = [0x7du8; 32];

    let replica_id = RefDomain::try_from_bytes(&rid_bytes).expect("domain");
    let ref_inputs = storage_proofs_porep::stacked::PublicInputs::<RefDomain, RefPieceDomain> {
        replica_id,
        seed: Some(seed),
        tau: None,
        k: None,
    };
    let challenges = Challenges::new_interactive(count);
    for k in 0..3usize {
        let expected = ref_inputs.challenges(&challenges, nodes, Some(k));
        let ours = porep_verifier::challenges::LayerChallenges::new(layers, max_count).derive(
            nodes,
            &DomainElement::from_bytes(rid_bytes),
            &seed,
            k as u8,
        );
        assert_eq!(ours, expected, "partition {}", k);
    }
}

// Base (bucket-sampled) parents match the reference graph node for node.
#[test]
fn base_parents_match_reference() {
    for api in [ApiVersion::V1_0_0, ApiVersion::V1_1_0] {
        let ref_api = match api {
            ApiVersion::V1_0_0 => storage_proofs_core::api_version::ApiVersion::V1_0_0,
            ApiVersion::V1_1_0 => storage_proofs_core::api_version::ApiVersion::V1_1_0,
        };
        let nodes = 1024usize;
        let reference =
            StackedBucketGraph::<PoseidonHasher>::new_stacked(nodes, 6, 8, POREP_ID, ref_api)
                .expect("reference graph");
        let ours = VerifierStackedBucketGraph::new(nodes, POREP_ID, api);
        for node in [0usize, 1, 2, 3, 17, 255, 512, 1023] {
            let mut expected = [0u32; 6];
            reference
                .base_graph()
                .parents(node, &mut expected)
                .expect("reference parents");
            let got = ours.base_parents(node);
            assert_eq!(got.as_slice(), &expected[..], "node {} ({:?})", node, api);
        }
    }
}

// Expander (Feistel-permuted) parents match the reference graph.
#[test]
fn expansion_parents_match_reference() {
    for api in [ApiVersion::V1_0_0, ApiVersion::V1_1_0] {
        let ref_api = match api {
            ApiVersion::V1_0_0 => storage_proofs_core::api_version::ApiVersion::V1_0_0,
            ApiVersion::V1_1_0 => storage_proofs_core::api_version::ApiVersion::V1_1_0,
        };
        let nodes = 1024usize;
        let reference =
            StackedBucketGraph::<PoseidonHasher>::new_stacked(nodes, 6, 8, POREP_ID, ref_api)
                .expect("reference graph");
        let ours = VerifierStackedBucketGraph::new(nodes, POREP_ID, api);
        for node in [0usize, 1, 2, 77, 500, 1023] {
            let mut expected = [0u32; 8];
            reference
                .expanded_parents(node, &mut expected)
                .expect("reference parents");
            let got = ours
                .expansion_parents(node)
                .expect("the permutation search always lands in practice");
            assert_eq!(got.as_slice(), &expected[..], "node {} ({:?})", node, api);
        }
    }
}

// The reference engine's replica id always passes the masked check: both
// sides canonicalise by clearing the top two bits.
#[test]
fn replica_id_check_matches_reference() {
    let prover_id = [0x21u8; 32];
    let ticket = [0x43u8; 32];
    let porep_seed = [0x65u8; 32];
    let comm_d = safe_bytes(0x07);
    for sector_id in 0u64..8 {
        let reference_id = storage_proofs_porep::stacked::generate_replica_id::<PoseidonHasher, _>(
            &prover_id,
            sector_id,
            &ticket,
            comm_d,
            &porep_seed,
        );
        let id_bytes: [u8; 32] = reference_id.into_bytes().try_into().expect("32 bytes");
        assert!(check_replica_id(
            &prover_id,
            sector_id,
            &ticket,
            &comm_d,
            &porep_seed,
            DomainElement::from_bytes(id_bytes),
        ));
    }
}

// Our partition challenge list agrees with what our own public-input
// assembly embeds, and the reference graph agrees with the parents it
// embeds: the full vector is pinned at both ends.
#[test]
fn assembled_vector_embeds_reference_parents() {
    let nodes = 512usize;
    let sp = porep_verifier::params::SetupParams {
        nodes: nodes as u64,
        degree: 6,
        expansion_degree: 8,
        porep_id: POREP_ID,
        layer_challenges: porep_verifier::challenges::LayerChallenges::new(2, 1),
        api_version: ApiVersion::V1_1_0,
    };
    let pp = porep_verifier::drg::setup(&sp).expect("setup");
    let rid = safe_bytes(0x5a);
    let inputs = PublicInputs {
        replica_id: DomainElement::from_bytes(rid),
        seed: [0x7du8; 32],
        tau: Some(porep_verifier::params::Tau {
            comm_d: DomainElement::from_bytes(safe_bytes(3)),
            comm_r: DomainElement::from_bytes(safe_bytes(4)),
        }),
        k: None,
    };
    let v = porep_verifier::drg::generate_public_inputs(&inputs, &pp, Some(0)).expect("assembly");

    let reference = StackedBucketGraph::<PoseidonHasher>::new_stacked(
        nodes,
        6,
        8,
        POREP_ID,
        storage_proofs_core::api_version::ApiVersion::V1_1_0,
    )
    .expect("reference graph");
    let ch = porep_verifier::challenges::LayerChallenges::new(2, 1).derive(
        nodes,
        &DomainElement::from_bytes(rid),
        &[0x7du8; 32],
        0,
    );
    for (b, &c) in ch.iter().enumerate() {
        let base = 3 + 18 * b;
        let mut bp = [0u32; 6];
        reference.base_graph().parents(c, &mut bp).expect("parents");
        for (i, &p) in bp.iter().enumerate() {
            assert_eq!(v[base + 1 + i], DomainElement::from_u64(p as u64));
        }
        let mut ep = [0u32; 8];
        reference.expanded_parents(c, &mut ep).expect("parents");
        for (i, &p) in ep.iter().enumerate() {
            assert_eq!(v[base + 7 + i], DomainElement::from_u64(p as u64));
        }
    }
}
