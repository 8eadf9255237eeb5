//! Public-input assembly for the stacked DRG: from the public inputs and
//! parameters to the ordered vector of field elements the pairing check
//! consumes, one partition at a time.

use crate::bytes::le_bytes;
use crate::challenges::{spec_partition_challenges, ChallengeRequirements};
use crate::field::DomainElement;
use crate::graph::VerifierStackedBucketGraph;
use crate::params::{PublicInputs, PublicParams, SetupParams};
use vstd::prelude::*;

verus! {

/// Everything that can go wrong in verification. A rejected proof is a
/// plain boolean, never one of these.
#[derive(Clone, Copy, Debug, PartialEq, Eq, Structural)]
pub enum Error {
    /// The public inputs carry no commitments.
    MissingCommitment,
    /// The setup parameters disagree with the protocol's fixed degrees or
    /// node bounds.
    InvalidSetupParams,
    /// The setup offers fewer challenges than the policy floor demands.
    UnsatisfiedRequirement,
    /// The expander permutation search gave up; no practical graph
    /// produces this.
    ExpanderSearchExhausted,
    /// The verifying key bytes do not parse.
    InvalidVerifyingKey,
    /// The proof bytes do not parse.
    InvalidProof,
    /// The pairing check itself refused the inputs.
    PairingFailure,
}

/// The byte encodings of a sequence of field elements.
pub open spec fn views_of(s: Seq<DomainElement>) -> Seq<Seq<u8>> {
    Seq::new(s.len(), |i: int| s[i]@)
}

/// A graph index as the 32-byte encoding of a field element.
pub open spec fn index_element(x: nat) -> Seq<u8> {
    le_bytes(x, 32)
}

/// A list of graph indices as field-element encodings.
pub open spec fn index_views(xs: Seq<u32>) -> Seq<Seq<u8>> {
    Seq::new(xs.len(), |i: int| index_element(xs[i] as nat))
}

/// The field elements one challenge contributes, in circuit order: the
/// challenged position (as the data-tree inclusion input), each base
/// parent's position, each expander parent's position, the challenge as a
/// field element, and the challenged position twice more (for the replica
/// tree and the column tree).
pub open spec fn spec_challenge_block(g: VerifierStackedBucketGraph, c: usize) -> Seq<Seq<u8>> {
    seq![index_element(c as nat)] + index_views(g.spec_base_parents(c)) + index_views(
        g.spec_expansion_parents(c as u32),
    ) + seq![index_element(c as nat), index_element(c as nat), index_element(c as nat)]
}

/// Whether the expander search landed for the first `upto` challenges.
pub open spec fn spec_blocks_ok(
    g: VerifierStackedBucketGraph,
    challenges: Seq<usize>,
    upto: int,
) -> bool {
    forall|i: int|
        0 <= i < upto ==> g.spec_expansion_parents_ok((#[trigger] challenges[i]) as u32)
}

/// The challenge blocks of the first `upto` challenges, concatenated.
pub open spec fn spec_blocks_flat(
    g: VerifierStackedBucketGraph,
    challenges: Seq<usize>,
    upto: int,
) -> Seq<Seq<u8>>
    decreases upto,
{
    if upto <= 0 {
        Seq::empty()
    } else {
        spec_blocks_flat(g, challenges, upto - 1) + spec_challenge_block(
            g,
            challenges[upto - 1],
        )
    }
}

/// Which partition a call asks for: the explicit argument wins, then the
/// index carried in the inputs, then partition zero.
pub open spec fn spec_resolved_k(inputs: PublicInputs, partition_k: Option<usize>) -> nat {
    match partition_k {
        Some(p) => p as nat,
        None => match inputs.k {
            Some(kk) => kk as nat,
            None => 0,
        },
    }
}

/// Partition `k`'s challenge indices under these parameters.
pub open spec fn spec_challenge_list(pp: PublicParams, inputs: PublicInputs, k: nat) -> Seq<
    usize,
> {
    spec_partition_challenges(
        pp.layer_challenges.spec_count_all(),
        pp.graph.nodes,
        inputs.replica_id@,
        inputs.seed@,
        k,
    )
}

/// Whether every expander search of partition `k`'s assembly lands.
pub open spec fn spec_public_inputs_ok(pp: PublicParams, inputs: PublicInputs, k: nat) -> bool {
    spec_blocks_ok(
        pp.graph,
        spec_challenge_list(pp, inputs, k),
        spec_challenge_list(pp, inputs, k).len() as int,
    )
}

/// The full input vector of partition `k`: replica id, the two
/// commitments, then every challenge's block in challenge order.
pub open spec fn spec_public_inputs(pp: PublicParams, inputs: PublicInputs, k: nat) -> Seq<
    Seq<u8>,
>
    recommends
        inputs.tau is Some,
{
    let ch = spec_challenge_list(pp, inputs, k);
    seq![
        inputs.replica_id@,
        inputs.tau->Some_0.comm_d@,
        inputs.tau->Some_0.comm_r@,
    ] + spec_blocks_flat(pp.graph, ch, ch.len() as int)
}

/// The setups the protocol accepts: its two fixed degrees, a graph shape
/// the sampler is defined over, and a sensible challenge policy.
pub open spec fn spec_setup_ok(sp: SetupParams) -> bool {
    &&& sp.degree == 6
    &&& sp.expansion_degree == 8
    &&& 3 <= sp.nodes <= u32::MAX
    &&& sp.layer_challenges.wf()
}

/// The public parameters a good setup derives to.
pub open spec fn spec_setup(sp: SetupParams) -> PublicParams {
    PublicParams {
        graph: VerifierStackedBucketGraph {
            nodes: sp.nodes as usize,
            porep_id: sp.porep_id,
            api_version: sp.api_version,
        },
        layer_challenges: sp.layer_challenges,
    }
}

/// Derives the public parameters from the setup parameters, rejecting a
/// setup whose degrees differ from the protocol's fixed constants or
/// whose shape the sampler is not defined over.
pub fn setup(sp: &SetupParams) -> (r: Result<PublicParams, Error>)
    ensures
        spec_setup_ok(*sp) <==> r is Ok,
        r matches Ok(pp) ==> pp == spec_setup(*sp) && pp.wf(),
        r matches Err(e) ==> e == Error::InvalidSetupParams,
{
    let lc = sp.layer_challenges;
    let lc_ok: bool = if lc.layers >= 1 && lc.max_count >= 1 {
        proof {
            assert((lc.layers as int) * (lc.max_count as int) <= u128::MAX) by (nonlinear_arith)
                requires
                    lc.layers <= u64::MAX,
                    lc.max_count <= u64::MAX,
            ;
            assert((lc.layers * lc.max_count * 256 <= u32::MAX) == (lc.layers as int
                * lc.max_count as int <= 16777215)) by (nonlinear_arith);
        }
        let prod: u128 = (lc.layers as u128) * (lc.max_count as u128);
        prod <= 16777215
    } else {
        false
    };
    if sp.degree == 6 && sp.expansion_degree == 8 && sp.nodes >= 3 && sp.nodes <= u32::MAX as u64
        && lc_ok {
        let graph = VerifierStackedBucketGraph::new(
            sp.nodes as usize,
            sp.porep_id,
            sp.api_version,
        );
        Ok(PublicParams::new(graph, sp.layer_challenges))
    } else {
        Err(Error::InvalidSetupParams)
    }
}

/// Whether `partitions` partitions of this setup clear the policy floor:
/// true exactly when the total challenge count reaches the minimum.
pub fn satisfies_requirements(
    pub_params: &PublicParams,
    requirements: &ChallengeRequirements,
    partitions: usize,
) -> (r: bool)
    requires
        pub_params.layer_challenges.wf(),
    ensures
        r == (pub_params.layer_challenges.spec_count_all() * partitions
            >= requirements.minimum_challenges),
{
    let partition_challenges = pub_params.layer_challenges.challenges_count_all();
    proof {
        assert((partition_challenges as int) * (partitions as int) <= u128::MAX)
            by (nonlinear_arith)
            requires
                partition_challenges <= u64::MAX,
                partitions <= u64::MAX,
        ;
    }
    let total: u128 = (partition_challenges as u128) * (partitions as u128);
    proof {
        assert(total == pub_params.layer_challenges.spec_count_all() * partitions)
            by (nonlinear_arith)
            requires
                total == (partition_challenges as u128) * (partitions as u128),
                partition_challenges == pub_params.layer_challenges.spec_count_all(),
        ;
    }
    total >= requirements.minimum_challenges as u128
}

/// The elements one challenge contributes, or the failing position.
fn challenge_block(g: &VerifierStackedBucketGraph, c: usize) -> (r: Option<
    Vec<DomainElement>,
>)
    requires
        g.wf(),
        c < g.nodes,
    ensures
        r is Some == g.spec_expansion_parents_ok(c as u32),
        r matches Some(v) ==> views_of(v@) == spec_challenge_block(*g, c),
{
    let mut out: Vec<DomainElement> = Vec::new();
    out.push(DomainElement::from_u64(c as u64));
    let bp = g.base_parents(c);
    let mut j: usize = 0;
    while j < 6
        invariant
            j <= 6,
            g.wf(),
            c < g.nodes,
            bp@ == g.spec_base_parents(c),
            bp@.len() == 6,
            out@.len() == 1 + j,
            out@[0]@ == index_element(c as nat),
            forall|t: int| 0 <= t < j ==> out@[1 + t]@ == index_element(bp@[t] as nat),
        decreases 6 - j,
    {
        out.push(DomainElement::from_u64(bp[j] as u64));
        j = j + 1;
    }
    let ep = match g.expansion_parents(c) {
        Some(v) => v,
        None => {
            return None;
        },
    };
    let mut j: usize = 0;
    while j < 8
        invariant
            j <= 8,
            g.wf(),
            c < g.nodes,
            bp@ == g.spec_base_parents(c),
            ep@ == g.spec_expansion_parents(c as u32),
            ep@.len() == 8,
            out@.len() == 7 + j,
            out@[0]@ == index_element(c as nat),
            forall|t: int| 0 <= t < 6 ==> out@[1 + t]@ == index_element(bp@[t] as nat),
            forall|t: int| 0 <= t < j ==> out@[7 + t]@ == index_element(ep@[t] as nat),
        decreases 8 - j,
    {
        out.push(DomainElement::from_u64(ep[j] as u64));
        j = j + 1;
    }
    out.push(DomainElement::from_u64(c as u64));
    out.push(DomainElement::from_u64(c as u64));
    out.push(DomainElement::from_u64(c as u64));
    proof {
        let spec_block = spec_challenge_block(*g, c);
        assert(spec_block.len() == 18);
        assert forall|t: int| 0 <= t < 18 implies views_of(out@)[t] == spec_block[t] by {
            if t == 0 {
            } else if t < 7 {
                assert(index_views(g.spec_base_parents(c))[t - 1] == index_element(
                    g.spec_base_parents(c)[t - 1] as nat,
                ));
            } else if t < 15 {
                assert(index_views(g.spec_expansion_parents(c as u32))[t - 7] == index_element(
                    g.spec_expansion_parents(c as u32)[t - 7] as nat,
                ));
            } else {
            }
        }
        assert(views_of(out@) =~~= spec_block);
    }
    Some(out)
}

/// Assembles the ordered field-element vector of one partition: the
/// replica id, the two commitments, then each challenge's block. Fails
/// only on missing commitments, or if an expander search gave up.
pub fn generate_public_inputs(
    pub_in: &PublicInputs,
    pub_params: &PublicParams,
    partition_k: Option<usize>,
) -> (r: Result<Vec<DomainElement>, Error>)
    requires
        pub_params.wf(),
        spec_resolved_k(*pub_in, partition_k) < 256,
    ensures
        pub_in.tau is None <==> (r matches Err(e) && e == Error::MissingCommitment),
        ({
            let k = spec_resolved_k(*pub_in, partition_k);
            &&& (pub_in.tau is Some && spec_public_inputs_ok(*pub_params, *pub_in, k)) ==> (
            r matches Ok(v) && views_of(v@) == spec_public_inputs(*pub_params, *pub_in, k))
            &&& (pub_in.tau is Some && !spec_public_inputs_ok(*pub_params, *pub_in, k)) ==> (
            r matches Err(e) && e == Error::ExpanderSearchExhausted)
        }),
{
    let tau = match &pub_in.tau {
        Some(t) => *t,
        None => {
            return Err(Error::MissingCommitment);
        },
    };
    let k: usize = match partition_k {
        Some(p) => p,
        None => match pub_in.k {
            Some(kk) => kk as usize,
            None => 0,
        },
    };
    let leaves = pub_params.graph.size();
    let challenges = pub_in.challenges(&pub_params.layer_challenges, leaves, Some(k));
    let ghost chs = spec_challenge_list(*pub_params, *pub_in, k as nat);
    proof {
        assert(challenges@ == chs);
    }
    let mut out: Vec<DomainElement> = Vec::new();
    out.push(pub_in.replica_id);
    out.push(tau.comm_d);
    out.push(tau.comm_r);
    let ghost header = seq![pub_in.replica_id@, tau.comm_d@, tau.comm_r@];
    proof {
        assert(views_of(out@) =~= header + spec_blocks_flat(pub_params.graph, chs, 0));
    }
    let n = challenges.len();
    let mut i: usize = 0;
    while i < n
        invariant
            i <= n,
            pub_params.wf(),
            pub_in.tau is Some,
            tau == pub_in.tau->Some_0,
            chs == spec_challenge_list(*pub_params, *pub_in, k as nat),
            k as nat == spec_resolved_k(*pub_in, partition_k),
            header == seq![pub_in.replica_id@, tau.comm_d@, tau.comm_r@],
            challenges@ == chs,
            challenges@.len() == n,
            forall|t: int| 0 <= t < n ==> 1 <= #[trigger] challenges@[t] < pub_params.graph.nodes,
            views_of(out@) =~= header + spec_blocks_flat(pub_params.graph, chs, i as int),
            spec_blocks_ok(pub_params.graph, chs, i as int),
        decreases n - i,
    {
        let c = challenges[i];
        match challenge_block(&pub_params.graph, c) {
            Some(mut block) => {
                let ghost old_views = views_of(out@);
                let ghost block_views = views_of(block@);
                out.append(&mut block);
                proof {
                    assert(views_of(out@) =~= old_views + block_views);
                    assert(views_of(out@) =~= header + spec_blocks_flat(
                        pub_params.graph,
                        chs,
                        i + 1,
                    ));
                }
            },
            None => {
                proof {
                    assert(!pub_params.graph.spec_expansion_parents_ok(chs[i as int] as u32));
                    assert(!spec_public_inputs_ok(*pub_params, *pub_in, k as nat));
                }
                return Err(Error::ExpanderSearchExhausted);
            },
        }
        i = i + 1;
    }
    proof {
        assert(views_of(out@) =~= spec_public_inputs(*pub_params, *pub_in, k as nat));
    }
    Ok(out)
}

/// Every partition's input vector, in partition order.
pub open spec fn spec_all_public_inputs(
    pp: PublicParams,
    inputs: PublicInputs,
    partitions: nat,
) -> Seq<Seq<Seq<u8>>> {
    Seq::new(partitions, |k: int| spec_public_inputs(pp, inputs, k as nat))
}

/// Law: assembling a batch of partitions and assembling one partition
/// alone agree element for element — the batch's `k`-th vector is exactly
/// the vector partition `k` derives on its own, so partition order is
/// stable however the work is split.
pub proof fn lemma_partition_order_stability(
    pp: PublicParams,
    inputs: PublicInputs,
    partitions: nat,
    k: nat,
)
    requires
        k < partitions,
    ensures
        spec_all_public_inputs(pp, inputs, partitions)[k as int] == spec_public_inputs(
            pp,
            inputs,
            k,
        ),
{
}

/// Assembles the input vectors of partitions `0, 1, ...` in order, as one
/// sequential pass.
pub fn generate_all_public_inputs(
    pub_in: &PublicInputs,
    pub_params: &PublicParams,
    partitions: usize,
) -> (r: Result<Vec<Vec<DomainElement>>, Error>)
    requires
        pub_params.wf(),
        partitions <= 256,
    ensures
        pub_in.tau is None <==> (r matches Err(e) && e == Error::MissingCommitment),
        (pub_in.tau is Some && (forall|k: int|
            0 <= k < partitions ==> #[trigger] spec_public_inputs_ok(
                *pub_params,
                *pub_in,
                k as nat,
            ))) ==> (r matches Ok(v) && v@.len() == partitions && forall|k: int|
            0 <= k < partitions ==> views_of((#[trigger] v@[k])@) == spec_all_public_inputs(
                *pub_params,
                *pub_in,
                partitions as nat,
            )[k]),
        (pub_in.tau is Some && !(forall|k: int|
            0 <= k < partitions ==> #[trigger] spec_public_inputs_ok(
                *pub_params,
                *pub_in,
                k as nat,
            )))
            ==> (r matches Err(e) && e == Error::ExpanderSearchExhausted),
{
    if matches!(&pub_in.tau, None) {
        return Err(Error::MissingCommitment);
    }
    let mut out: Vec<Vec<DomainElement>> = Vec::new();
    let mut k: usize = 0;
    while k < partitions
        invariant
            k <= partitions,
            partitions <= 256,
            pub_params.wf(),
            pub_in.tau is Some,
            out@.len() == k,
            forall|t: int|
                0 <= t < k ==> #[trigger] spec_public_inputs_ok(*pub_params, *pub_in, t as nat),
            forall|t: int|
                0 <= t < k ==> views_of((#[trigger] out@[t])@) == spec_public_inputs(
                    *pub_params,
                    *pub_in,
                    t as nat,
                ),
        decreases partitions - k,
    {
        match generate_public_inputs(pub_in, pub_params, Some(k)) {
            Ok(v) => {
                out.push(v);
            },
            Err(e) => {
                proof {
                    let kk: int = k as int;
                    assert(0 <= kk < partitions);
                    assert(!spec_public_inputs_ok(*pub_params, *pub_in, kk as nat));
                }
                return Err(Error::ExpanderSearchExhausted);
            },
        }
        k = k + 1;
    }
    Ok(out)
}

} // verus!
