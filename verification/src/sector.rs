//! Sector-size bookkeeping: the supported sizes, padded and unpadded
//! byte amounts, the per-size challenge policy, and the derivation of
//! setup parameters from a sector size.

use crate::challenges::LayerChallenges;
use crate::drg::{setup, Error};
use crate::params::{PublicParams, SetupParams};
use crate::utils::ApiVersion;
use vstd::prelude::*;

verus! {

pub const SECTOR_SIZE_2_KIB: u64 = 2048;

pub const SECTOR_SIZE_4_KIB: u64 = 4096;

pub const SECTOR_SIZE_16_KIB: u64 = 16384;

pub const SECTOR_SIZE_32_KIB: u64 = 32768;

pub const SECTOR_SIZE_8_MIB: u64 = 8388608;

pub const SECTOR_SIZE_16_MIB: u64 = 16777216;

pub const SECTOR_SIZE_512_MIB: u64 = 536870912;

pub const SECTOR_SIZE_1_GIB: u64 = 1073741824;

pub const SECTOR_SIZE_32_GIB: u64 = 34359738368;

pub const SECTOR_SIZE_64_GIB: u64 = 68719476736;

/// How many stacked layers each supported sector size encodes.
pub open spec fn spec_layers_for(sector_size: u64) -> Option<usize> {
    if sector_size == SECTOR_SIZE_2_KIB || sector_size == SECTOR_SIZE_4_KIB || sector_size
        == SECTOR_SIZE_16_KIB || sector_size == SECTOR_SIZE_32_KIB || sector_size
        == SECTOR_SIZE_8_MIB || sector_size == SECTOR_SIZE_16_MIB || sector_size
        == SECTOR_SIZE_512_MIB || sector_size == SECTOR_SIZE_1_GIB {
        Some(2usize)
    } else if sector_size == SECTOR_SIZE_32_GIB || sector_size == SECTOR_SIZE_64_GIB {
        Some(11usize)
    } else {
        None
    }
}

/// The layer count of a supported sector size.
pub fn layers_for(sector_size: u64) -> (r: Option<usize>)
    ensures
        r == spec_layers_for(sector_size),
{
    if sector_size == SECTOR_SIZE_2_KIB || sector_size == SECTOR_SIZE_4_KIB || sector_size
        == SECTOR_SIZE_16_KIB || sector_size == SECTOR_SIZE_32_KIB || sector_size
        == SECTOR_SIZE_8_MIB || sector_size == SECTOR_SIZE_16_MIB || sector_size
        == SECTOR_SIZE_512_MIB || sector_size == SECTOR_SIZE_1_GIB {
        Some(2usize)
    } else if sector_size == SECTOR_SIZE_32_GIB || sector_size == SECTOR_SIZE_64_GIB {
        Some(11usize)
    } else {
        None
    }
}

/// The policy floor on total challenges for each supported sector size:
/// production sizes demand the full count, test sizes only a token one.
pub open spec fn spec_minimum_challenges_for(sector_size: u64) -> Option<usize> {
    if sector_size == SECTOR_SIZE_32_GIB || sector_size == SECTOR_SIZE_64_GIB {
        Some(176usize)
    } else if spec_layers_for(sector_size) is Some {
        Some(2usize)
    } else {
        None
    }
}

/// The challenge floor of a supported sector size.
pub fn minimum_challenges_for(sector_size: u64) -> (r: Option<usize>)
    ensures
        r == spec_minimum_challenges_for(sector_size),
{
    if sector_size == SECTOR_SIZE_32_GIB || sector_size == SECTOR_SIZE_64_GIB {
        Some(176usize)
    } else {
        match layers_for(sector_size) {
            Some(_) => Some(2usize),
            None => None,
        }
    }
}

/// The smallest challenge count per layer, from `c` upward, that lets
/// `partitions` partitions reach the floor.
pub open spec fn count_from(partitions: nat, minimum: nat, layers: nat, c: nat) -> nat
    decreases (if c < minimum {
        minimum - c
    } else {
        0
    }),
{
    if partitions * (layers * c) >= minimum || c >= minimum {
        c
    } else {
        count_from(partitions, minimum, layers, c + 1)
    }
}

/// The per-layer challenge count the policy selects.
pub open spec fn spec_select_count(partitions: nat, minimum: nat, layers: nat) -> nat {
    count_from(partitions, minimum, layers, 1)
}

/// Whether `count` challenges per layer still miss the floor.
fn under_floor(partitions: usize, layers: usize, count: usize, minimum: usize) -> (r: bool)
    requires
        count <= minimum,
        layers * minimum * 256 <= u32::MAX,
    ensures
        r == ((partitions as int) * ((layers as int) * (count as int)) < minimum),
{
    proof {
        assert(layers * minimum <= layers * minimum * 256) by (nonlinear_arith);
        assert((layers as int) * (count as int) <= (layers as int) * (minimum as int))
            by (nonlinear_arith)
            requires
                count <= minimum,
                layers >= 0,
        ;
        assert((partitions as int) * ((layers as int) * (count as int)) <= u128::MAX)
            by (nonlinear_arith)
            requires
                partitions <= u64::MAX,
                (layers as int) * (count as int) <= u64::MAX,
                (layers as int) * (count as int) >= 0,
        ;
    }
    ((partitions as u128) * ((layers as u128) * (count as u128))) < (minimum as u128)
}

/// Picks the least per-layer challenge count whose total, over all
/// layers and partitions, reaches the policy floor.
pub fn select_challenges(partitions: usize, minimum_total_challenges: usize, layers: usize) -> (r:
    LayerChallenges)
    requires
        1 <= partitions,
        1 <= layers,
        1 <= minimum_total_challenges,
        layers * minimum_total_challenges * 256 <= u32::MAX,
    ensures
        r.layers == layers,
        r.max_count == spec_select_count(
            partitions as nat,
            minimum_total_challenges as nat,
            layers as nat,
        ),
        r.wf(),
        partitions * r.spec_count_all() >= minimum_total_challenges,
{
    let mut count: usize = 1;
    while under_floor(partitions, layers, count, minimum_total_challenges)
        invariant
            1 <= count <= minimum_total_challenges,
            1 <= partitions,
            1 <= layers,
            1 <= minimum_total_challenges,
            layers * minimum_total_challenges * 256 <= u32::MAX,
            spec_select_count(
                partitions as nat,
                minimum_total_challenges as nat,
                layers as nat,
            ) == count_from(
                partitions as nat,
                minimum_total_challenges as nat,
                layers as nat,
                count as nat,
            ),
        decreases minimum_total_challenges - count,
    {
        proof {
            if count >= minimum_total_challenges {
                assert((partitions as int) * ((layers as int) * (count as int)) >= (
                minimum_total_challenges as int)) by (nonlinear_arith)
                    requires
                        partitions >= 1,
                        layers >= 1,
                        count >= minimum_total_challenges,
                        minimum_total_challenges >= 1,
                ;
            }
        }
        count = count + 1;
    }
    proof {
        assert((partitions as nat) * ((layers as nat) * (count as nat)) >= (
        minimum_total_challenges as nat));
        assert(count_from(
            partitions as nat,
            minimum_total_challenges as nat,
            layers as nat,
            count as nat,
        ) == count);
        assert(layers * count <= layers * minimum_total_challenges) by (nonlinear_arith)
            requires
                count <= minimum_total_challenges,
                layers >= 0,
        ;
        assert(layers * count * 256 <= layers * minimum_total_challenges * 256)
            by (nonlinear_arith)
            requires
                layers * count <= layers * minimum_total_challenges,
        ;
        assert(partitions * (layers * count) >= minimum_total_challenges ==> partitions * ((
        layers * count) as nat) >= minimum_total_challenges) by (nonlinear_arith);
    }
    LayerChallenges::new(layers, count)
}

/// Derives the setup parameters for a sector: the per-size challenge
/// policy, the fixed degrees, and the node count.
pub fn setup_params(
    sector_bytes: u64,
    partitions: usize,
    porep_id: [u8; 32],
    api_version: ApiVersion,
) -> (r: Result<SetupParams, Error>)
    requires
        1 <= partitions <= 1024,
    ensures
        r is Ok <==> spec_layers_for(sector_bytes) is Some,
        r matches Ok(sp) ==> sp.nodes == sector_bytes / 32 && sp.degree == 6
            && sp.expansion_degree == 8 && sp.porep_id == porep_id && sp.api_version
            == api_version && sp.layer_challenges.layers == spec_layers_for(
            sector_bytes,
        )->Some_0 && sp.layer_challenges.max_count == spec_select_count(
            partitions as nat,
            spec_minimum_challenges_for(sector_bytes)->Some_0 as nat,
            spec_layers_for(sector_bytes)->Some_0 as nat,
        ) && sp.layer_challenges.wf(),
        r matches Err(e) ==> e == Error::InvalidSetupParams,
{
    let layers = match layers_for(sector_bytes) {
        Some(l) => l,
        None => {
            return Err(Error::InvalidSetupParams);
        },
    };
    let minimum = match minimum_challenges_for(sector_bytes) {
        Some(m) => m,
        None => {
            proof {
                assert(false);
            }
            return Err(Error::InvalidSetupParams);
        },
    };
    let layer_challenges = select_challenges(partitions, minimum, layers);
    Ok(
        SetupParams {
            nodes: sector_bytes / 32,
            degree: 6,
            expansion_degree: 8,
            porep_id,
            layer_challenges,
            api_version,
        },
    )
}

/// Derives the public parameters for a sector in one step: success is
/// owed for every supported sector size.
pub fn public_params(
    sector_bytes: u64,
    partitions: usize,
    porep_id: [u8; 32],
    api_version: ApiVersion,
) -> (r: Result<PublicParams, Error>)
    requires
        1 <= partitions <= 1024,
    ensures
        r is Ok <==> spec_layers_for(sector_bytes) is Some,
        r matches Ok(pp) ==> pp.wf() && pp.graph.nodes == sector_bytes / 32
            && pp.graph.porep_id == porep_id && pp.graph.api_version == api_version
            && pp.layer_challenges.layers == spec_layers_for(sector_bytes)->Some_0,
        r matches Err(e) ==> e == Error::InvalidSetupParams,
{
    let sp = match setup_params(sector_bytes, partitions, porep_id, api_version) {
        Ok(sp) => sp,
        Err(e) => {
            return Err(e);
        },
    };
    proof {
        assert(3 <= sp.nodes <= u32::MAX);
    }
    setup(&sp)
}

/// A byte count before bit-padding: what users hand the pipeline.
#[derive(Clone, Copy, Debug, PartialEq, Eq, PartialOrd, Ord, Structural)]
pub struct UnpaddedBytesAmount(pub u64);

/// A byte count after bit-padding, as a sector stores it.
#[derive(Clone, Copy, Debug, PartialEq, Eq, PartialOrd, Ord, Structural)]
pub struct PaddedBytesAmount(pub u64);

/// A sector's size in bytes.
#[derive(Clone, Copy, Debug, PartialEq, Eq, Structural)]
pub struct SectorSize(pub u64);

impl UnpaddedBytesAmount {
    /// Padding adds one byte for every 127: two zero bits atop each 254.
    pub fn to_padded(&self) -> (r: PaddedBytesAmount)
        requires
            self.0 + self.0 / 127 <= u64::MAX,
        ensures
            r.0 == self.0 + self.0 / 127,
    {
        PaddedBytesAmount(self.0 + self.0 / 127)
    }
}

impl PaddedBytesAmount {
    /// Unpadding removes one byte for every 128.
    pub fn to_unpadded(&self) -> (r: UnpaddedBytesAmount)
        ensures
            r.0 == self.0 - self.0 / 128,
    {
        UnpaddedBytesAmount(self.0 - self.0 / 128)
    }
}

/// One deployment's replication configuration: the sector size, the
/// domain separator and the protocol version.
#[derive(Clone, Copy, Debug, PartialEq, Eq)]
pub struct PoRepConfig {
    pub sector_size: SectorSize,
    pub porep_id: [u8; 32],
    pub api_version: ApiVersion,
}

impl PoRepConfig {
    /// Builds the configuration for a pairing-checked deployment.
    pub fn new_groth16(sector_size: u64, porep_id: [u8; 32], api_version: ApiVersion) -> (r:
        PoRepConfig)
        ensures
            r.sector_size.0 == sector_size,
            r.porep_id == porep_id,
            r.api_version == api_version,
    {
        PoRepConfig { sector_size: SectorSize(sector_size), porep_id, api_version }
    }

    /// The sector size as a padded byte amount.
    pub fn padded_bytes_amount(&self) -> (r: PaddedBytesAmount)
        ensures
            r.0 == self.sector_size.0,
    {
        PaddedBytesAmount(self.sector_size.0)
    }

    /// How many user bytes the sector holds before padding.
    pub fn unpadded_bytes_amount(&self) -> (r: UnpaddedBytesAmount)
        ensures
            r.0 == self.sector_size.0 - self.sector_size.0 / 128,
    {
        self.padded_bytes_amount().to_unpadded()
    }
}

/// Builds the replication configuration for a sector.
pub fn porep_config(sector_size: u64, porep_id: [u8; 32], api_version: ApiVersion) -> (r:
    PoRepConfig)
    ensures
        r.sector_size.0 == sector_size,
        r.porep_id == porep_id,
        r.api_version == api_version,
{
    PoRepConfig::new_groth16(sector_size, porep_id, api_version)
}

/// The supported sector size a file of `len` bytes seals into: the
/// smallest class that holds it.
pub open spec fn spec_sector_size_for(len: u64) -> Option<u64> {
    if len <= SECTOR_SIZE_2_KIB {
        Some(SECTOR_SIZE_2_KIB)
    } else if len <= SECTOR_SIZE_4_KIB {
        Some(SECTOR_SIZE_4_KIB)
    } else if len <= SECTOR_SIZE_16_KIB {
        Some(SECTOR_SIZE_16_KIB)
    } else if len <= SECTOR_SIZE_32_KIB {
        Some(SECTOR_SIZE_32_KIB)
    } else if len <= SECTOR_SIZE_8_MIB {
        Some(SECTOR_SIZE_8_MIB)
    } else if len <= SECTOR_SIZE_16_MIB {
        Some(SECTOR_SIZE_16_MIB)
    } else if len <= SECTOR_SIZE_512_MIB {
        Some(SECTOR_SIZE_512_MIB)
    } else if len <= SECTOR_SIZE_1_GIB {
        Some(SECTOR_SIZE_1_GIB)
    } else if len <= SECTOR_SIZE_32_GIB {
        Some(SECTOR_SIZE_32_GIB)
    } else if len <= SECTOR_SIZE_64_GIB {
        Some(SECTOR_SIZE_64_GIB)
    } else {
        None
    }
}

/// Classifies a file length into the sector size it seals into, or
/// nothing when it exceeds the largest supported sector.
pub fn sector_size_for(len: u64) -> (r: Option<u64>)
    ensures
        r == spec_sector_size_for(len),
{
    if len <= SECTOR_SIZE_2_KIB {
        Some(SECTOR_SIZE_2_KIB)
    } else if len <= SECTOR_SIZE_4_KIB {
        Some(SECTOR_SIZE_4_KIB)
    } else if len <= SECTOR_SIZE_16_KIB {
        Some(SECTOR_SIZE_16_KIB)
    } else if len <= SECTOR_SIZE_32_KIB {
        Some(SECTOR_SIZE_32_KIB)
    } else if len <= SECTOR_SIZE_8_MIB {
        Some(SECTOR_SIZE_8_MIB)
    } else if len <= SECTOR_SIZE_16_MIB {
        Some(SECTOR_SIZE_16_MIB)
    } else if len <= SECTOR_SIZE_512_MIB {
        Some(SECTOR_SIZE_512_MIB)
    } else if len <= SECTOR_SIZE_1_GIB {
        Some(SECTOR_SIZE_1_GIB)
    } else if len <= SECTOR_SIZE_32_GIB {
        Some(SECTOR_SIZE_32_GIB)
    } else if len <= SECTOR_SIZE_64_GIB {
        Some(SECTOR_SIZE_64_GIB)
    } else {
        None
    }
}

/// The smallest piece the pipeline accepts, in unpadded bytes.
pub const MINIMUM_PIECE_SIZE: u64 = 127;

/// Whether `x` is a power of two.
pub open spec fn spec_is_power_of_two(x: u64) -> bool {
    exists|k: nat| k < 64 && x == vstd::arithmetic::power2::pow2(k)
}

/// Decides whether `x` is a power of two, by doubling up to it.
pub fn is_power_of_two(x: u64) -> (r: bool)
    ensures
        r == spec_is_power_of_two(x),
{
    proof {
        vstd::arithmetic::power2::lemma2_to64();
    }
    if x == 0 {
        proof {
            assert forall|k: nat| k < 64 implies vstd::arithmetic::power2::pow2(k) != 0 by {
                vstd::arithmetic::power2::lemma_pow2_pos(k);
            }
        }
        return false;
    }
    let mut b: u64 = 0;
    let mut p: u64 = 1;
    while p < x && b < 63
        invariant
            b <= 63,
            p == vstd::arithmetic::power2::pow2(b as nat),
            forall|k: nat| k < b ==> vstd::arithmetic::power2::pow2(k) < x,
            x >= 1,
        decreases 63 - b,
    {
        proof {
            vstd::arithmetic::power2::lemma_pow2_adds(b as nat, 1);
            vstd::arithmetic::power2::lemma2_to64();
            vstd::arithmetic::power2::lemma2_to64_rest();
            assert(vstd::arithmetic::power2::pow2(b as nat) <= vstd::arithmetic::power2::pow2(
                62,
            )) by {
                if b < 62 {
                    vstd::arithmetic::power2::lemma_pow2_strictly_increases(b as nat, 62);
                }
            }
            assert forall|k: nat| k < b + 1 implies vstd::arithmetic::power2::pow2(k) < x by {
                if k == b {
                }
            }
        }
        p = p * 2;
        b = b + 1;
    }
    if p == x {
        proof {
            assert(spec_is_power_of_two(x)) by {
                assert(b < 64 && x == vstd::arithmetic::power2::pow2(b as nat));
            }
        }
        true
    } else {
        proof {
            assert forall|k: nat| k < 64 implies vstd::arithmetic::power2::pow2(k) != x by {
                if k < b {
                } else if k == b {
                    assert(vstd::arithmetic::power2::pow2(k) == p);
                } else {
                    vstd::arithmetic::power2::lemma_pow2_strictly_increases(b as nat, k);
                    if p > x {
                    } else {
                        assert(b == 63);
                        assert(k >= 64);
                    }
                }
            }
        }
        false
    }
}

/// Whether a piece is large enough and bit-pads to a power of two, the
/// two conditions the pipeline demands of every piece.
pub fn piece_size_ok(piece_size: UnpaddedBytesAmount) -> (r: bool)
    requires
        piece_size.0 + piece_size.0 / 127 <= u64::MAX,
    ensures
        r == (piece_size.0 >= MINIMUM_PIECE_SIZE && spec_is_power_of_two(
            (piece_size.0 + piece_size.0 / 127) as u64,
        )),
{
    if piece_size.0 < MINIMUM_PIECE_SIZE {
        return false;
    }
    let padded = piece_size.to_padded();
    is_power_of_two(padded.0)
}

/// What the pre-commit stage of sealing hands back: the commitment to
/// the replica and the commitment to the original data.
#[derive(Clone, Copy, Debug, PartialEq, Eq)]
pub struct SealPreCommitOutput {
    pub comm_r: [u8; 32],
    pub comm_d: [u8; 32],
}

/// What the commit stage of sealing hands back: the serialized proof.
#[derive(Clone, Debug, PartialEq, Eq)]
pub struct SealCommitOutput {
    pub proof: Vec<u8>,
}

} // verus!
