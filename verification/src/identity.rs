//! Replica identity: the hash binding a replica to prover, sector, ticket,
//! data commitment and domain-separation seed, in the two canonical forms
//! the protocol uses — full modular reduction on the generating side and
//! top-bit masking on the checking side.

use crate::bytes::{bytes_eq, le_bytes, le_int, lemma_pow256_pos, push_be_bytes, to_array32};
use crate::field::{
    field_modulus, lemma_field_modulus_bounds, lemma_le_bytes_of_value,
    lemma_small_value_below_modulus, reduce_mod_field, DomainElement,
};
use crate::hashing::{sha256, sha256_of};
use vstd::prelude::*;

verus! {

/// The bytes bound into the replica-identity digest, in protocol order:
/// prover id, big-endian sector id, ticket, data commitment, porep seed.
pub open spec fn replica_id_message(
    prover_id: Seq<u8>,
    sector_id: u64,
    ticket: Seq<u8>,
    comm_d: Seq<u8>,
    porep_seed: Seq<u8>,
) -> Seq<u8> {
    prover_id + le_bytes(sector_id as nat, 8).reverse() + ticket + comm_d + porep_seed
}

/// What `generate_replica_id` returns: the digest of the binding message,
/// read little-endian and reduced into the field.
pub open spec fn spec_generate_replica_id(
    prover_id: Seq<u8>,
    sector_id: u64,
    ticket: Seq<u8>,
    comm_d: Seq<u8>,
    porep_seed: Seq<u8>,
) -> Seq<u8> {
    le_bytes(
        le_int(sha256_of(replica_id_message(prover_id, sector_id, ticket, comm_d, porep_seed)))
            % field_modulus(),
        32,
    )
}

/// The digest with the two most-significant bits of its last byte cleared:
/// the cheaper canonicalisation the checking side uses instead of a full
/// modular reduction.
pub open spec fn masked_digest(d: Seq<u8>) -> Seq<u8>
    recommends
        d.len() == 32,
{
    d.update(31, (d[31] & 0x3f) as u8)
}

/// What `check_replica_id` decides: the masked digest of the binding
/// message equals the candidate's encoding, byte for byte.
pub open spec fn spec_check_replica_id(
    prover_id: Seq<u8>,
    sector_id: u64,
    ticket: Seq<u8>,
    comm_d: Seq<u8>,
    porep_seed: Seq<u8>,
    candidate: Seq<u8>,
) -> bool {
    masked_digest(sha256_of(replica_id_message(prover_id, sector_id, ticket, comm_d, porep_seed)))
        == candidate
}

/// Assembles the binding message.
fn build_replica_id_message(
    prover_id: &[u8],
    sector_id: u64,
    ticket: &[u8],
    comm_d: &[u8],
    porep_seed: &[u8],
) -> (r: Vec<u8>)
    ensures
        r@ == replica_id_message(prover_id@, sector_id, ticket@, comm_d@, porep_seed@),
{
    let mut m: Vec<u8> = Vec::new();
    m.extend_from_slice(prover_id);
    push_be_bytes(&mut m, sector_id, 8);
    m.extend_from_slice(ticket);
    m.extend_from_slice(comm_d);
    m.extend_from_slice(porep_seed);
    proof {
        assert(m@ =~= replica_id_message(prover_id@, sector_id, ticket@, comm_d@, porep_seed@));
    }
    m
}

/// Derives the replica id binding a replica to its provenance: the SHA-256
/// digest of `prover_id ‖ sector_id ‖ ticket ‖ comm_d ‖ porep_seed`,
/// reduced into the field.
pub fn generate_replica_id(
    prover_id: &[u8; 32],
    sector_id: u64,
    ticket: &[u8; 32],
    comm_d: &[u8],
    porep_seed: &[u8; 32],
) -> (r: DomainElement)
    ensures
        r@ == spec_generate_replica_id(prover_id@, sector_id, ticket@, comm_d@, porep_seed@),
{
    let msg = build_replica_id_message(
        vstd::array::array_as_slice(prover_id),
        sector_id,
        vstd::array::array_as_slice(ticket),
        comm_d,
        vstd::array::array_as_slice(porep_seed),
    );
    let digest = sha256(msg.as_slice());
    let reduced = reduce_mod_field(digest.as_slice());
    DomainElement::from_bytes(to_array32(reduced.as_slice()))
}

/// Recomputes the binding digest, clears the top two bits of its last byte
/// instead of reducing, and compares the raw bytes against the candidate.
/// A mismatch means an invalid proof, never an error.
pub fn check_replica_id(
    prover_id: &[u8],
    sector_id: u64,
    ticket: &[u8],
    comm_d: &[u8],
    porep_seed: &[u8],
    replica_id: DomainElement,
) -> (r: bool)
    ensures
        r == spec_check_replica_id(
            prover_id@,
            sector_id,
            ticket@,
            comm_d@,
            porep_seed@,
            replica_id@,
        ),
{
    let msg = build_replica_id_message(prover_id, sector_id, ticket, comm_d, porep_seed);
    let mut digest = sha256(msg.as_slice());
    let masked: u8 = digest[31] & 0x3f;
    digest[31] = masked;
    proof {
        assert(digest@ =~= masked_digest(
            sha256_of(replica_id_message(prover_id@, sector_id, ticket@, comm_d@, porep_seed@)),
        ));
    }
    bytes_eq(digest.as_slice(), vstd::array::array_as_slice(&replica_id.bytes))
}

/// Law: `check_replica_id` accepts what `generate_replica_id` produced
/// exactly when the binding digest's value stays below two to the 254th
/// — its last byte below 0x40. Inside that range masking clears nothing
/// and the value already sits inside the field, so the two
/// canonicalisations agree; with either top bit set they part ways by
/// design: masking drops a multiple of two to the 254th, reduction drops
/// a multiple of the odd prime, and no such multiples coincide.
pub proof fn lemma_identity_round_trip(
    prover_id: Seq<u8>,
    sector_id: u64,
    ticket: Seq<u8>,
    comm_d: Seq<u8>,
    porep_seed: Seq<u8>,
)
    ensures
        ({
            let d = sha256_of(
                replica_id_message(prover_id, sector_id, ticket, comm_d, porep_seed),
            );
            d.len() == 32 ==> (spec_check_replica_id(
                prover_id,
                sector_id,
                ticket,
                comm_d,
                porep_seed,
                spec_generate_replica_id(prover_id, sector_id, ticket, comm_d, porep_seed),
            ) <==> d[31] < 0x40)
        }),
{
    let d = sha256_of(replica_id_message(prover_id, sector_id, ticket, comm_d, porep_seed));
    if d.len() == 32 {
        if d[31] < 0x40 {
            lemma_small_value_below_modulus(d);
            vstd::arithmetic::div_mod::lemma_small_mod(le_int(d), field_modulus());
            lemma_le_bytes_of_value(d);
            let b = d[31];
            assert(b & 0x3f == b) by (bit_vector)
                requires
                    b < 0x40,
            ;
            assert(masked_digest(d) =~= d);
        } else {
            lemma_masked_never_reduced(d);
        }
    }
}

/// On a digest with either top bit set, the masked bytes can never equal
/// the canonical encoding of the reduced value.
proof fn lemma_masked_never_reduced(d: Seq<u8>)
    requires
        d.len() == 32,
        d[31] >= 0x40,
    ensures
        masked_digest(d) != le_bytes(le_int(d) % field_modulus(), 32),
{
    let m = masked_digest(d);
    let p = crate::bytes::pow256(31) as int;
    let big = le_int(d) as int;
    let modulus = field_modulus() as int;
    let v = (le_int(d) % field_modulus()) as int;
    lemma_pow256_pos(31);
    lemma_field_modulus_bounds();
    // The two byte strings split at the last byte.
    crate::bytes::lemma_le_int_split(d, 31);
    crate::bytes::lemma_le_int_split(m, 31);
    assert(m.take(31) =~= d.take(31));
    assert(d.skip(31) =~= seq![d[31]]);
    assert(m.skip(31) =~= seq![(d[31] & 0x3f) as u8]);
    crate::bytes::lemma_le_int_singleton(d[31]);
    crate::bytes::lemma_le_int_singleton((d[31] & 0x3f) as u8);
    // Masking subtracts the top two bits: a positive multiple of 64
    // at the last byte's position.
    let b = d[31];
    let tt = (b >> 6) as int;
    assert(b == (b & 0x3f) + 64 * (b >> 6) && 1 <= (b >> 6) <= 3) by (bit_vector)
        requires
            b >= 0x40,
    ;
    assert(big - le_int(m) == p * 64 * tt) by (nonlinear_arith)
        requires
            big == le_int(d.take(31)) + p * (b as int),
            le_int(m) == le_int(d.take(31)) + p * ((b & 0x3f) as int),
            b as int == ((b & 0x3f) as int) + 64 * tt,
    ;
    // Reduction subtracts at most two copies of the modulus.
    vstd::arithmetic::div_mod::lemma_fundamental_div_mod(big, modulus);
    vstd::arithmetic::div_mod::lemma_mod_bound(big, modulus);
    let j = big / modulus;
    assert(big == modulus * j + v);
    assert(big < 256 * p) by {
        crate::bytes::lemma_le_int_bound(d);
        crate::bytes::lemma_pow256_add(31, 1);
    }
    assert(j >= 0) by {
        vstd::arithmetic::div_mod::lemma_div_is_ordered(0, big, modulus);
    }
    assert(j <= 2) by {
        if j >= 3 {
            assert(modulus * 3 <= modulus * j) by {
                vstd::arithmetic::mul::lemma_mul_inequality(3, j, modulus);
                vstd::arithmetic::mul::lemma_mul_is_commutative(modulus, j);
            }
            assert(modulus * 3 >= (p * 115) * 3) by (nonlinear_arith)
                requires
                    modulus >= p * 115,
            ;
            assert((p * 115) * 3 > 256 * p) by (nonlinear_arith)
                requires
                    p >= 1,
            ;
        }
    }
    // Were the strings equal, the values dropped by each side would
    // coincide; the bounds rule every pairing out.
    if m == le_bytes(le_int(d) % field_modulus(), 32) {
        assert(le_int(m) == v) by {
            assert(v < 256 * p) by (nonlinear_arith)
                requires
                    v < modulus,
                    modulus < p * 116,
                    p >= 1,
            ;
            assert(256 * p == crate::bytes::pow256(32)) by {
                crate::bytes::lemma_pow256_add(31, 1);
            }
            crate::bytes::lemma_le_bytes_value(le_int(d) % field_modulus(), 32);
        }
        assert(modulus * j == p * 64 * tt);
        assert(p * 64 * tt >= p * 64 && p * 64 * tt <= p * 192) by (nonlinear_arith)
            requires
                1 <= tt <= 3,
                p >= 1,
        ;
        if j == 0 {
            assert(modulus * 0 == 0) by (nonlinear_arith);
            assert(p * 64 >= 64);
        } else if j == 1 {
            assert(modulus * 1 == modulus) by (nonlinear_arith);
            assert(p * 64 * tt == p * (64 * tt)) by (nonlinear_arith);
            assert(p * (64 * tt) < p * 115 || p * (64 * tt) > p * 116) by {
                if 64 * tt < 115 {
                    vstd::arithmetic::mul::lemma_mul_strict_inequality(64 * tt, 115, p);
                    vstd::arithmetic::mul::lemma_mul_is_commutative(p, 64 * tt);
                    vstd::arithmetic::mul::lemma_mul_is_commutative(p, 115);
                } else {
                    vstd::arithmetic::mul::lemma_mul_strict_inequality(116, 64 * tt, p);
                    vstd::arithmetic::mul::lemma_mul_is_commutative(p, 64 * tt);
                    vstd::arithmetic::mul::lemma_mul_is_commutative(p, 116);
                }
            }
        } else {
            assert(j == 2);
            assert(modulus * 2 >= (p * 115) * 2) by (nonlinear_arith)
                requires
                    modulus >= p * 115,
            ;
            assert((p * 115) * 2 > p * 192) by (nonlinear_arith)
                requires
                    p >= 1,
            ;
        }
        assert(false);
    }
}

/// A generated replica id never sets the top bit of its last byte: the
/// reduced value sits below the 255-bit modulus, so its canonical
/// encoding leaves that bit clear.
pub proof fn lemma_generated_id_top_bit_clear(
    prover_id: Seq<u8>,
    sector_id: u64,
    ticket: Seq<u8>,
    comm_d: Seq<u8>,
    porep_seed: Seq<u8>,
)
    ensures
        spec_generate_replica_id(prover_id, sector_id, ticket, comm_d, porep_seed)[31] < 0x80,
{
    let v = le_int(sha256_of(replica_id_message(prover_id, sector_id, ticket, comm_d, porep_seed)))
        % field_modulus();
    lemma_field_modulus_bounds();
    vstd::arithmetic::div_mod::lemma_mod_bound(
        le_int(
            sha256_of(replica_id_message(prover_id, sector_id, ticket, comm_d, porep_seed)),
        ) as int,
        field_modulus() as int,
    );
    let p = crate::bytes::pow256(31) as int;
    lemma_pow256_pos(31);
    assert(v < p * 116);
    assert((v as int) / p < 116) by {
        vstd::arithmetic::div_mod::lemma_multiply_divide_lt(v as int, p, 116);
    }
    assert(le_bytes(v, 32)[31] == crate::bytes::le_byte(v, 31));
    vstd::arithmetic::div_mod::lemma_mod_bound((v / crate::bytes::pow256(31)) as int, 256);
    vstd::arithmetic::div_mod::lemma_small_mod((v as nat) / crate::bytes::pow256(31), 256);
}

} // verus!
