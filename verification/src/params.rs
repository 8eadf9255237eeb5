//! The records a verification runs on: setup parameters, derived public
//! parameters, per-proof public inputs, and the stored verifier bundle.

use crate::challenges::{spec_partition_challenges, LayerChallenges};
use crate::field::DomainElement;
use crate::graph::VerifierStackedBucketGraph;
use crate::utils::ApiVersion;
use vstd::prelude::*;

verus! {

/// Everything that determines the graph shape and challenge policy.
/// Immutable once constructed.
#[derive(Clone, Copy, Debug, PartialEq, Eq)]
pub struct SetupParams {
    /// Number of leaves, the sector size in nodes.
    pub nodes: u64,
    /// Base degree of the depth-robust graph.
    pub degree: u64,
    /// Expander degree of the stacked graph.
    pub expansion_degree: u64,
    /// The 32-byte domain separator of this deployment.
    pub porep_id: [u8; 32],
    pub layer_challenges: LayerChallenges,
    pub api_version: ApiVersion,
}

/// The derived public parameters: the graph's adjacency rule plus the
/// challenge policy. Cheap to clone and free of interior state.
#[derive(Clone, Copy, Debug, PartialEq, Eq)]
pub struct PublicParams {
    pub graph: VerifierStackedBucketGraph,
    pub layer_challenges: LayerChallenges,
}

impl PublicParams {
    pub open spec fn wf(&self) -> bool {
        &&& self.graph.wf()
        &&& self.layer_challenges.wf()
    }

    pub fn new(graph: VerifierStackedBucketGraph, layer_challenges: LayerChallenges) -> (r:
        PublicParams)
        ensures
            r.graph == graph,
            r.layer_challenges == layer_challenges,
    {
        PublicParams { graph, layer_challenges }
    }
}

/// The pair of commitments a proof is checked against: the data tree root
/// and the replica tree root.
#[derive(Clone, Copy, Debug, PartialEq, Eq)]
pub struct Tau {
    pub comm_d: DomainElement,
    pub comm_r: DomainElement,
}

/// The public inputs of one proof: the replica id, the challenge seed,
/// the commitments (present for any verification), and an optional
/// partition index defaulting to zero.
#[derive(Clone, Copy, Debug, PartialEq, Eq)]
pub struct PublicInputs {
    pub replica_id: DomainElement,
    pub seed: [u8; 32],
    pub tau: Option<Tau>,
    /// Partition index.
    pub k: Option<u64>,
}

impl PublicInputs {
    /// This proof's challenge indices for partition `partition_k`
    /// (partition zero when absent).
    pub fn challenges(
        &self,
        layer_challenges: &LayerChallenges,
        leaves: usize,
        partition_k: Option<usize>,
    ) -> (r: Vec<usize>)
        requires
            layer_challenges.wf(),
            leaves >= 2,
            partition_k matches Some(p) ==> p < 256,
        ensures
            r@ == spec_partition_challenges(
                layer_challenges.spec_count_all(),
                leaves,
                self.replica_id@,
                self.seed@,
                (match partition_k {
                    Some(p) => p,
                    None => 0,
                }) as nat,
            ),
            forall|t: int| 0 <= t < r@.len() ==> 1 <= #[trigger] r@[t] < leaves,
            r@.len() == layer_challenges.spec_count_all(),
    {
        let k: usize = match partition_k {
            Some(p) => p,
            None => 0,
        };
        layer_challenges.derive(leaves, &self.replica_id, &self.seed, k as u8)
    }
}

/// The stored bundle a verifier runs from: the setup parameters, the
/// serialized verifying key, and the policy floor on challenge counts.
#[derive(Clone, Debug, PartialEq, Eq)]
pub struct VerifierParameters {
    pub setup_params: SetupParams,
    /// Canonical serialized verifying key, an opaque blob until the
    /// pairing check parses it.
    pub vk: Vec<u8>,
    pub minimum_challenges: u64,
}

} // verus!
