//! Protocol-wide small items: the API version tag, the node size, byte
//! offsets of nodes inside a sector, and the derived storage key under
//! which a deployment's verifier material is filed.

use crate::bytes::{le_bytes, push_le_bytes};
use crate::hashing::{sha256, sha256_of};
use crate::hex_bytes::{hex_decode, hex_decode_ok, hex_decoded, hex_encode, hex_str_of};
use vstd::prelude::*;

verus! {

/// Which revision of the protocol's sampling rules applies.
#[derive(Clone, Copy, Debug, PartialEq, Eq, Structural)]
pub enum ApiVersion {
    V1_0_0,
    V1_1_0,
}

impl ApiVersion {
    /// The single byte each version is tagged with in hashed key material.
    pub open spec fn spec_byte(&self) -> u8 {
        match self {
            ApiVersion::V1_0_0 => 0,
            ApiVersion::V1_1_0 => 1,
        }
    }

    pub fn byte(&self) -> (r: u8)
        ensures
            r == self.spec_byte(),
    {
        match self {
            ApiVersion::V1_0_0 => 0,
            ApiVersion::V1_1_0 => 1,
        }
    }
}

/// Bytes every graph node occupies.
pub const NODE_SIZE: usize = 32;

/// Returns the start position of the data of node `v`, 0-indexed.
pub fn data_at_node_offset(v: usize) -> (r: usize)
    requires
        v * 32 <= usize::MAX,
    ensures
        r == v * 32,
{
    v * NODE_SIZE
}

/// What the storage key binds together: the decoded porep id, the sector
/// size as eight little-endian bytes, and the protocol version's byte.
pub open spec fn porep_key_message(
    porep_id: Seq<char>,
    sector_size: u64,
    api_version: ApiVersion,
) -> Seq<u8> {
    hex_decoded(porep_id) + le_bytes(sector_size as nat, 8) + seq![api_version.spec_byte()]
}

/// Derives the storage key a deployment's verifier bundle is filed
/// under: the hex-encoded digest of porep id, sector size and version.
/// Both the write and the read path depend on this matching exactly.
pub fn porep_key(porep_id: String, sector_size: u64, api_version: ApiVersion) -> (r: String)
    requires
        hex_decode_ok(porep_id@),
    ensures
        r@ == hex_str_of(sha256_of(porep_key_message(porep_id@, sector_size, api_version))),
{
    let decoded = match hex_decode(porep_id.as_str()) {
        Some(b) => b,
        None => {
            proof {
                assert(false);
            }
            Vec::new()
        },
    };
    let mut msg = decoded;
    push_le_bytes(&mut msg, sector_size, 8);
    msg.push(api_version.byte());
    proof {
        assert(msg@ =~= porep_key_message(porep_id@, sector_size, api_version));
    }
    let digest = sha256(msg.as_slice());
    hex_encode(digest.as_slice())
}

} // verus!
