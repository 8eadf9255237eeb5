//! Unit checks of the supporting pieces: keys, caches, byte amounts,
//! sector bookkeeping and field encodings.

use porep_verifier::cache::ParameterCache;
use porep_verifier::field::DomainElement;
use porep_verifier::msgs::{
    next_reward, porep_key, prover_id_matches, submit_gate, SubmitGate, SupportedSectorSize,
};
use porep_verifier::sector::{
    is_power_of_two, layers_for, minimum_challenges_for, piece_size_ok, porep_config,
    sector_size_for, select_challenges, setup_params, PaddedBytesAmount, UnpaddedBytesAmount,
    SECTOR_SIZE_2_KIB, SECTOR_SIZE_32_GIB, SECTOR_SIZE_64_GIB,
};
use porep_verifier::challenges::mod_le_bytes;
use porep_verifier::hex_bytes::{hex_decode, hex_encode};
use porep_verifier::utils::{data_at_node_offset, ApiVersion};
use sha2::Digest;

// The byte-level storage key is the digest of id, size code and version.
#[test]
fn porep_key_bytes_matches_digest() {
    let porep_id = [0xabu8; 32];
    let key = porep_key(&porep_id, SupportedSectorSize::SectorSize2Kib, &ApiVersion::V1_1_0);
    let mut msg = porep_id.to_vec();
    msg.push(0u8);
    msg.push(1u8);
    let expected: [u8; 32] = sha2::Sha256::digest(&msg).into();
    assert_eq!(key.as_slice(), &expected[..]);
    // Distinct size classes give distinct keys.
    let other = porep_key(&porep_id, SupportedSectorSize::SectorSize64Gib, &ApiVersion::V1_1_0);
    assert_ne!(key, other);
}

// The string-level storage key round-trips through hex and the digest.
#[test]
fn porep_key_string_matches_digest() {
    let porep_id_hex = String::from("00ff10a0") + &"00".repeat(28);
    let key = porep_verifier::utils::porep_key(porep_id_hex, 2048, ApiVersion::V1_0_0);
    let mut msg = hex::decode("00ff10a0".to_string() + &"00".repeat(28)).unwrap();
    msg.extend_from_slice(&2048u64.to_le_bytes());
    msg.push(0u8);
    let expected = hex::encode(sha2::Sha256::digest(&msg));
    assert_eq!(key, expected);
}

#[test]
fn prover_identity_binding() {
    let user = b"submitter-address";
    let good: [u8; 32] = sha2::Sha256::digest(user).into();
    assert!(prover_id_matches(user, &good));
    let mut bad = good;
    bad[0] ^= 1;
    assert!(!prover_id_matches(user, &bad));
}

#[test]
fn submission_gates_in_order() {
    assert_eq!(submit_gate(10, 11, true, false), SubmitGate::Timeout);
    assert_eq!(submit_gate(10, 10, false, true), SubmitGate::WrongProver);
    assert_eq!(submit_gate(10, 10, true, true), SubmitGate::AlreadySubmitted);
    assert_eq!(submit_gate(10, 9, true, false), SubmitGate::Proceed);
    assert_eq!(next_reward(None), 1);
    assert_eq!(next_reward(Some(41)), 42);
}

#[test]
fn cache_runs_generator_once() {
    let mut cache: ParameterCache<u64> = ParameterCache::new();
    let key_a = [1u8; 32];
    let key_b = [2u8; 32];
    assert!(cache.lookup(&key_a).is_none());
    let v = *cache.cache_lookup(&key_a, || 101);
    assert_eq!(v, 101);
    // A second lookup keeps the first value even with a fresh generator.
    let v = *cache.cache_lookup(&key_a, || 999);
    assert_eq!(v, 101);
    let v = *cache.cache_lookup(&key_b, || 202);
    assert_eq!(v, 202);
    assert_eq!(*cache.lookup(&key_a).unwrap(), 101);
    assert_eq!(*cache.lookup(&key_b).unwrap(), 202);
}

#[test]
fn byte_amount_conversions() {
    assert_eq!(UnpaddedBytesAmount(127).to_padded(), PaddedBytesAmount(128));
    assert_eq!(PaddedBytesAmount(128).to_unpadded(), UnpaddedBytesAmount(127));
    assert_eq!(UnpaddedBytesAmount(2032).to_padded(), PaddedBytesAmount(2048));
    assert_eq!(PaddedBytesAmount(2048).to_unpadded(), UnpaddedBytesAmount(2032));
    let cfg = porep_config(2048, [9u8; 32], ApiVersion::V1_0_0);
    assert_eq!(cfg.padded_bytes_amount(), PaddedBytesAmount(2048));
    assert_eq!(cfg.unpadded_bytes_amount(), UnpaddedBytesAmount(2032));
}

#[test]
fn piece_sizes() {
    assert!(piece_size_ok(UnpaddedBytesAmount(127)));
    assert!(!piece_size_ok(UnpaddedBytesAmount(126)));
    assert!(!piece_size_ok(UnpaddedBytesAmount(200)));
    assert!(piece_size_ok(UnpaddedBytesAmount(254)));
    assert!(is_power_of_two(1));
    assert!(is_power_of_two(2048));
    assert!(!is_power_of_two(0));
    assert!(!is_power_of_two(2049));
    assert!(is_power_of_two(1u64 << 63));
}

#[test]
fn sector_bookkeeping() {
    assert_eq!(layers_for(SECTOR_SIZE_2_KIB), Some(2));
    assert_eq!(layers_for(SECTOR_SIZE_32_GIB), Some(11));
    assert_eq!(layers_for(12345), None);
    assert_eq!(minimum_challenges_for(SECTOR_SIZE_2_KIB), Some(2));
    assert_eq!(minimum_challenges_for(SECTOR_SIZE_64_GIB), Some(176));
    assert_eq!(sector_size_for(100), Some(SECTOR_SIZE_2_KIB));
    assert_eq!(sector_size_for(2048), Some(SECTOR_SIZE_2_KIB));
    assert_eq!(sector_size_for(2049), Some(4096));
    assert_eq!(sector_size_for(SECTOR_SIZE_64_GIB + 1), None);
    assert_eq!(data_at_node_offset(3), 96);
}

// The selected challenge policy is the least count reaching the floor.
#[test]
fn challenge_selection() {
    // One partition, two layers, floor two: one per layer suffices.
    let lc = select_challenges(1, 2, 2);
    assert_eq!((lc.layers, lc.max_count), (2, 1));
    // One partition, eleven layers, floor 176: sixteen per layer.
    let lc = select_challenges(1, 176, 11);
    assert_eq!((lc.layers, lc.max_count), (11, 16));
    // Two partitions halve the per-partition load.
    let lc = select_challenges(2, 176, 11);
    assert_eq!((lc.layers, lc.max_count), (11, 8));
    let sp = setup_params(SECTOR_SIZE_2_KIB, 1, [7u8; 32], ApiVersion::V1_1_0).expect("params");
    assert_eq!(sp.nodes, 64);
    assert_eq!((sp.degree, sp.expansion_degree), (6, 8));
    assert_eq!((sp.layer_challenges.layers, sp.layer_challenges.max_count), (2, 1));
    assert!(setup_params(12345, 1, [7u8; 32], ApiVersion::V1_1_0).is_err());
}

#[test]
fn field_element_encoding() {
    let fe = DomainElement::from_u64(0x0102030405060708);
    let mut expected = [0u8; 32];
    expected[..8].copy_from_slice(&0x0102030405060708u64.to_le_bytes());
    assert_eq!(fe.bytes, expected);
    assert!(fe.equals(&DomainElement::from_bytes(expected)));
    assert!(!fe.equals(&DomainElement::from_u64(9)));
}

// The generating side reduces modulo the field prime: a digest above the
// modulus wraps around rather than keeping its raw bytes.
#[test]
fn replica_id_is_reduced() {
    // Find inputs whose identity digest has its top bit set; the reduced
    // id must then differ from the raw digest.
    let prover_id = [0x61u8; 32];
    let ticket = [0x62u8; 32];
    let comm_d = [0x63u8; 32];
    let porep_seed = [0x64u8; 32];
    let mut seen = false;
    for sector_id in 0u64..64 {
        let mut msg = Vec::new();
        msg.extend_from_slice(&prover_id);
        msg.extend_from_slice(&sector_id.to_be_bytes());
        msg.extend_from_slice(&ticket);
        msg.extend_from_slice(&comm_d);
        msg.extend_from_slice(&porep_seed);
        let digest: [u8; 32] = sha2::Sha256::digest(&msg).into();
        let id = porep_verifier::identity::generate_replica_id(
            &prover_id,
            sector_id,
            &ticket,
            &comm_d,
            &porep_seed,
        );
        if digest[31] >= 0x80 {
            assert_ne!(id.bytes, digest, "a large digest must be reduced");
            seen = true;
        } else if digest[31] < 0x40 {
            assert_eq!(id.bytes, digest, "a small digest is already canonical");
        }
        // In every case the reduced value stays below the modulus, whose
        // top byte is 0x73.
        assert!(id.bytes[31] <= 0x73);
    }
    assert!(seen);
}

// The hexadecimal boundary: decoding accepts exactly even-length digit
// strings of either case, and encoding is lower-case, high nibble first.
#[test]
fn hex_boundary() {
    assert_eq!(hex_decode("00ff10A0"), Some(vec![0x00, 0xff, 0x10, 0xa0]));
    assert_eq!(hex_decode(""), Some(vec![]));
    assert_eq!(hex_decode("abc"), None);
    assert_eq!(hex_decode("0g"), None);
    assert_eq!(hex_encode(&[0x00, 0xff, 0x10, 0xa0]), "00ff10a0");
}

// Little-endian modular reduction of a byte string against small moduli.
#[test]
fn modular_reduction_of_bytes() {
    // [5, 1] reads as 261 little-endian.
    assert_eq!(mod_le_bytes(&[5, 1], 7), 261 % 7);
    assert_eq!(mod_le_bytes(&[5, 1], 1), 0);
    assert_eq!(mod_le_bytes(&[], 13), 0);
    let digest: Vec<u8> = (0u8..32).collect();
    let mut expected: u128 = 0;
    for &b in digest.iter().rev() {
        expected = (expected * 256 + b as u128) % 1000003;
    }
    assert_eq!(mod_le_bytes(&digest, 1000003), expected as u64);
}
