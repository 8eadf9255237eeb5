//! The verification orchestrator: replica identity first, then the
//! requirement floor, then input assembly, and only then the delegated
//! pairing check, whose boolean answer is the verdict.

use crate::challenges::ChallengeRequirements;
use crate::drg::{
    generate_public_inputs, satisfies_requirements, setup, spec_public_inputs,
    spec_public_inputs_ok, spec_setup, spec_setup_ok, views_of, Error,
};
use crate::field::DomainElement;
use crate::identity::{check_replica_id, spec_check_replica_id};
use crate::params::{PublicInputs, PublicParams, VerifierParameters};
use ark_serialize::CanonicalDeserialize;
use vstd::prelude::*;

verus! {

/// What the pairing-check collaborator can come back with.
#[derive(Clone, Copy, Debug, PartialEq, Eq, Structural)]
pub enum PairingOutcome {
    /// The verifying key bytes did not parse.
    BadVerifyingKey,
    /// The proof bytes did not parse.
    BadProof,
    /// Key and proof parsed but the check refused the input vector.
    Malformed,
    /// The pairing equation's answer.
    Verdict(bool),
}

/// The outcome of handing a serialized key, a serialized proof and an
/// input vector to the pairing check: the bytes determine it completely.
pub uninterp spec fn groth16_outcome(vk: Seq<u8>, proof: Seq<u8>, inputs: Seq<Seq<u8>>) -> PairingOutcome;

/// Relies on ark-serialize's `CanonicalDeserialize` for ark-groth16's
/// `VerifyingKey` and `Proof` over ark-bls12-381's `Bls12_381`, on
/// ark-groth16's `prepare_verifying_key` and `verify_proof`, and on
/// ark-ff's `from_le_bytes_mod_order` to read each 32-byte input as a
/// field element: one deterministic computation from bytes to outcome.
#[verifier::external_body]
fn pairing_check(vk: &[u8], proof: &[u8], inputs: &Vec<DomainElement>) -> (r: PairingOutcome)
    ensures
        r == groth16_outcome(vk@, proof@, views_of(inputs@)),
{
    let key = match ark_groth16::VerifyingKey::<ark_bls12_381::Bls12_381>::deserialize(vk) {
        Ok(k) => k, Err(_) => return PairingOutcome::BadVerifyingKey,
    };
    let pf = match ark_groth16::Proof::<ark_bls12_381::Bls12_381>::deserialize(proof) {
        Ok(p) => p, Err(_) => return PairingOutcome::BadProof,
    };
    let frs: Vec<ark_bls12_381::Fr> = inputs
        .iter()
        .map(|d| <ark_bls12_381::Fr as ark_ff::PrimeField>::from_le_bytes_mod_order(&d.bytes))
        .collect();
    match ark_groth16::verify_proof(&ark_groth16::prepare_verifying_key(&key), &pf, &frs) {
        Ok(b) => PairingOutcome::Verdict(b), Err(_) => PairingOutcome::Malformed,
    }
}

/// How each pairing outcome surfaces to the caller: a parsed-and-checked
/// proof gives its boolean verdict, anything else a tagged failure.
pub open spec fn spec_verdict(o: PairingOutcome) -> Result<bool, Error> {
    match o {
        PairingOutcome::Verdict(b) => Ok(b),
        PairingOutcome::BadVerifyingKey => Err(Error::InvalidVerifyingKey),
        PairingOutcome::BadProof => Err(Error::InvalidProof),
        PairingOutcome::Malformed => Err(Error::PairingFailure),
    }
}

/// Turns a pairing outcome into the verifier's result.
fn verdict_of(o: PairingOutcome) -> (r: Result<bool, Error>)
    ensures
        r == spec_verdict(o),
{
    match o {
        PairingOutcome::Verdict(b) => Ok(b),
        PairingOutcome::BadVerifyingKey => Err(Error::InvalidVerifyingKey),
        PairingOutcome::BadProof => Err(Error::InvalidProof),
        PairingOutcome::Malformed => Err(Error::PairingFailure),
    }
}

/// The verifier for one stacked-DRG deployment, holding the serialized
/// verifying key it will check proofs against.
#[derive(Clone, Debug, PartialEq, Eq)]
pub struct VerifierStackedDrg {
    pub vk: Vec<u8>,
}

impl VerifierStackedDrg {
    pub fn new(vk: &[u8]) -> (r: VerifierStackedDrg)
        ensures
            r.vk@ == vk@,
    {
        VerifierStackedDrg { vk: vstd::slice::slice_to_vec(vk) }
    }

    /// Checks one single-partition proof: the requirement floor first,
    /// then partition zero's input vector, then the pairing check, whose
    /// boolean answer comes back unchanged.
    pub fn verify(
        &self,
        pub_params: &PublicParams,
        pub_in: &PublicInputs,
        proof_bytes: &[u8],
        requirements: &ChallengeRequirements,
    ) -> (r: Result<bool, Error>)
        requires
            pub_params.wf(),
        ensures
            ({
                let req_ok = pub_params.layer_challenges.spec_count_all()
                    >= requirements.minimum_challenges;
                let assembly_ok = spec_public_inputs_ok(*pub_params, *pub_in, 0);
                &&& !req_ok ==> (r matches Err(e) && e == Error::UnsatisfiedRequirement)
                &&& (req_ok && pub_in.tau is None) ==> (r matches Err(e) && e
                    == Error::MissingCommitment)
                &&& (req_ok && pub_in.tau is Some && !assembly_ok) ==> (r matches Err(e) && e
                    == Error::ExpanderSearchExhausted)
                &&& (req_ok && pub_in.tau is Some && assembly_ok) ==> r == spec_verdict(
                    groth16_outcome(
                        self.vk@,
                        proof_bytes@,
                        spec_public_inputs(*pub_params, *pub_in, 0),
                    ),
                )
            }),
    {
        if !satisfies_requirements(pub_params, requirements, 1) {
            proof {
                assert(pub_params.layer_challenges.spec_count_all() * 1
                    == pub_params.layer_challenges.spec_count_all());
            }
            return Err(Error::UnsatisfiedRequirement);
        }
        proof {
            assert(pub_params.layer_challenges.spec_count_all() * 1
                == pub_params.layer_challenges.spec_count_all());
        }
        let inputs = match generate_public_inputs(pub_in, pub_params, Some(0)) {
            Ok(v) => v,
            Err(e) => {
                return Err(e);
            },
        };
        verdict_of(pairing_check(self.vk.as_slice(), proof_bytes, &inputs))
    }
}

/// Verifies one submitted proof end to end. The order is load-bearing:
/// the replica identity is checked before any derived input is trusted —
/// a mismatch is a plain `false`, not an error — and the requirement
/// floor is checked before any pairing work is spent.
pub fn verify_proof(
    params: &VerifierParameters,
    proof_raw: &[u8],
    public_inputs: &PublicInputs,
    porep_id: &[u8],
    prover_id: &[u8],
    sector_id: u64,
    ticket: &[u8],
) -> (r: Result<bool, Error>)
    ensures
        ({
            let identity_ok = public_inputs.tau matches Some(tau)
                && spec_check_replica_id(
                prover_id@,
                sector_id,
                ticket@,
                tau.comm_d@,
                porep_id@,
                public_inputs.replica_id@,
            );
            let setup_ok = spec_setup_ok(params.setup_params);
            let pp = spec_setup(params.setup_params);
            let req_ok = params.setup_params.layer_challenges.spec_count_all()
                >= params.minimum_challenges;
            let assembly_ok = spec_public_inputs_ok(pp, *public_inputs, 0);
            &&& public_inputs.tau is None ==> (r matches Err(e) && e
                == Error::MissingCommitment)
            &&& (public_inputs.tau is Some && !identity_ok) ==> r == Ok::<bool, Error>(false)
            &&& (identity_ok && !setup_ok) ==> (r matches Err(e) && e
                == Error::InvalidSetupParams)
            &&& (identity_ok && setup_ok && !req_ok) ==> (r matches Err(e) && e
                == Error::UnsatisfiedRequirement)
            &&& (identity_ok && setup_ok && req_ok && !assembly_ok) ==> (r matches Err(e) && e
                == Error::ExpanderSearchExhausted)
            &&& (identity_ok && setup_ok && req_ok && assembly_ok) ==> r == spec_verdict(
                groth16_outcome(
                    params.vk@,
                    proof_raw@,
                    spec_public_inputs(pp, *public_inputs, 0),
                ),
            )
        }),
{
    let tau = match &public_inputs.tau {
        Some(t) => *t,
        None => {
            return Err(Error::MissingCommitment);
        },
    };
    let valid_identity = check_replica_id(
        prover_id,
        sector_id,
        ticket,
        vstd::array::array_as_slice(&tau.comm_d.bytes),
        porep_id,
        public_inputs.replica_id,
    );
    if !valid_identity {
        return Ok(false);
    }
    let pp = match setup(&params.setup_params) {
        Ok(p) => p,
        Err(e) => {
            return Err(e);
        },
    };
    let requirements = ChallengeRequirements { minimum_challenges: params.minimum_challenges };
    let verifier = VerifierStackedDrg::new(params.vk.as_slice());
    verifier.verify(&pp, public_inputs, proof_raw, &requirements)
}

} // verus!
