//! The ledger-facing records and decisions: message shells, round
//! bookkeeping, the supported sector sizes, the byte-level storage key,
//! and the pure gates a proof submission passes before verification.

use crate::bytes::bytes_eq;
use crate::hashing::{sha256, sha256_of};
use vstd::prelude::*;

verus! {

#[derive(Clone, Copy, Debug, PartialEq, Eq, Structural)]
pub struct MigrateMsg {}

#[derive(Clone, Copy, Debug, PartialEq, Eq, Structural)]
pub struct InstantiateMsg {}

/// The sector sizes a deployment may register parameters for.
#[derive(Clone, Copy, Debug, PartialEq, Eq, Structural)]
pub enum SupportedSectorSize {
    SectorSize2Kib,
    SectorSize4Kib,
    SectorSize16Kib,
    SectorSize32Kib,
    SectorSize8Mib,
    SectorSize16Mib,
    SectorSize512Mib,
    SectorSize1Gib,
    SectorSize32Gib,
    SectorSize64Gib,
}

impl SupportedSectorSize {
    /// The byte each size class contributes to hashed key material, in
    /// declaration order.
    pub open spec fn spec_code(&self) -> u8 {
        match self {
            SupportedSectorSize::SectorSize2Kib => 0,
            SupportedSectorSize::SectorSize4Kib => 1,
            SupportedSectorSize::SectorSize16Kib => 2,
            SupportedSectorSize::SectorSize32Kib => 3,
            SupportedSectorSize::SectorSize8Mib => 4,
            SupportedSectorSize::SectorSize16Mib => 5,
            SupportedSectorSize::SectorSize512Mib => 6,
            SupportedSectorSize::SectorSize1Gib => 7,
            SupportedSectorSize::SectorSize32Gib => 8,
            SupportedSectorSize::SectorSize64Gib => 9,
        }
    }

    pub fn code(&self) -> (r: u8)
        ensures
            r == self.spec_code(),
    {
        match self {
            SupportedSectorSize::SectorSize2Kib => 0,
            SupportedSectorSize::SectorSize4Kib => 1,
            SupportedSectorSize::SectorSize16Kib => 2,
            SupportedSectorSize::SectorSize32Kib => 3,
            SupportedSectorSize::SectorSize8Mib => 4,
            SupportedSectorSize::SectorSize16Mib => 5,
            SupportedSectorSize::SectorSize512Mib => 6,
            SupportedSectorSize::SectorSize1Gib => 7,
            SupportedSectorSize::SectorSize32Gib => 8,
            SupportedSectorSize::SectorSize64Gib => 9,
        }
    }
}

/// The answer to a current-round query.
#[derive(Clone, Copy, Debug, PartialEq, Eq, Structural)]
pub struct CurrentRoundResponse {
    pub current_round: i32,
}

/// What one submission round remembers: when it closes and which
/// deployment it belongs to.
#[derive(Clone, Copy, Debug, PartialEq, Eq)]
pub struct InfoRound {
    pub time_expire: u64,
    pub porep_id: [u8; 32],
}

/// The byte-level storage key of a parameter bundle: the digest of the
/// porep id followed by the sector-size code and the version byte.
pub open spec fn spec_porep_key(
    porep_id: Seq<u8>,
    sector_size: SupportedSectorSize,
    api_version: crate::utils::ApiVersion,
) -> Seq<u8> {
    sha256_of(porep_id + seq![sector_size.spec_code(), api_version.spec_byte()])
}

/// Derives the byte-level storage key a parameter bundle is filed under.
pub fn porep_key(
    porep_id: &[u8],
    sector_size: SupportedSectorSize,
    api_version: &crate::utils::ApiVersion,
) -> (r: Vec<u8>)
    ensures
        r@ == spec_porep_key(porep_id@, sector_size, *api_version),
{
    let mut messages: Vec<u8> = vstd::slice::slice_to_vec(porep_id);
    messages.push(sector_size.code());
    messages.push(api_version.byte());
    proof {
        assert(messages@ =~= porep_id@ + seq![
            sector_size.spec_code(),
            api_version.spec_byte(),
        ]);
    }
    sha256(messages.as_slice())
}

/// Whether a submitter's address hashes to the prover id the proof
/// claims: submissions under another identity are turned away before any
/// verification work.
pub fn prover_id_matches(user: &[u8], prover_id: &[u8]) -> (r: bool)
    ensures
        r == (sha256_of(user@) == prover_id@),
{
    let h = sha256(user);
    bytes_eq(h.as_slice(), prover_id)
}

/// Why a submission is turned away before verification, or that it may
/// proceed.
#[derive(Clone, Copy, Debug, PartialEq, Eq, Structural)]
pub enum SubmitGate {
    /// The round has closed.
    Timeout,
    /// The submitter is not the prover the proof names.
    WrongProver,
    /// This prover already submitted in this round.
    AlreadySubmitted,
    /// All gates passed; verification may start.
    Proceed,
}

/// The decisions taken on a submission, in the ledger's order: expiry of
/// the round, then the prover identity, then the one-submission-per-round
/// rule.
pub fn submit_gate(time_expire: u64, now: u64, id_matches: bool, already_submitted: bool) -> (r:
    SubmitGate)
    ensures
        time_expire < now ==> r == SubmitGate::Timeout,
        time_expire >= now && !id_matches ==> r == SubmitGate::WrongProver,
        time_expire >= now && id_matches && already_submitted ==> r
            == SubmitGate::AlreadySubmitted,
        time_expire >= now && id_matches && !already_submitted ==> r == SubmitGate::Proceed,
{
    if time_expire < now {
        SubmitGate::Timeout
    } else if !id_matches {
        SubmitGate::WrongProver
    } else if already_submitted {
        SubmitGate::AlreadySubmitted
    } else {
        SubmitGate::Proceed
    }
}

/// The reward balance after one accepted proof: one more than before,
/// starting from one.
pub fn next_reward(old_reward: Option<i32>) -> (r: i32)
    requires
        old_reward matches Some(x) ==> x < i32::MAX,
    ensures
        r == (match old_reward {
            Some(x) => x + 1,
            None => 1,
        }),
{
    match old_reward {
        Some(x) => x + 1,
        None => 1,
    }
}

} // verus!
