//! The stacked depth-robust graph as the verifier reconstructs it: for any
//! node, the six bucket-sampled base parents and the eight expander parents
//! reached through a Feistel permutation — all pure functions of the node
//! index, the porep id and the protocol version.

use crate::bytes::{
    be_bytes_to_u64, be_int, le_bytes, le_bytes_to_u64, le_int, lemma_be_int_bound,
    lemma_le_int_bound, lemma_pow256_bytes, push_be_bytes, push_le_bytes, to_array32,
};
use crate::chacha::{chacha8_word, ChaChaStream};
use crate::hashing::{blake2b, blake2b_of, sha256, sha256_of};
use crate::utils::ApiVersion;
use vstd::arithmetic::power2::pow2;
use vstd::bits::{lemma_u64_shl_is_mul, lemma_u64_shr_is_div};
use vstd::prelude::*;

verus! {

/// Base parents every node draws by bucket sampling.
pub const BASE_DEGREE: usize = 6;

/// Expander parents every node reaches through the Feistel permutation.
pub const EXP_DEGREE: usize = 8;

/// The domain-separation tag in front of the porep id when the bucket
/// sampling seed is derived.
pub open spec fn drsample_tag() -> Seq<u8> {
    seq![
        0x46u8, 0x69u8, 0x6cu8, 0x65u8, 0x63u8, 0x6fu8, 0x69u8, 0x6eu8, 0x5fu8,
        0x44u8, 0x52u8, 0x53u8, 0x61u8, 0x6du8, 0x70u8, 0x6cu8, 0x65u8,
    ]
}

/// The domain-separation tag in front of the porep id when the Feistel
/// keys are derived.
pub open spec fn feistel_tag() -> Seq<u8> {
    seq![
        0x46u8, 0x69u8, 0x6cu8, 0x65u8, 0x63u8, 0x6fu8, 0x69u8, 0x6eu8, 0x5fu8,
        0x46u8, 0x65u8, 0x69u8, 0x73u8, 0x74u8, 0x65u8, 0x6cu8,
    ]
}

fn drsample_tag_bytes() -> (r: Vec<u8>)
    ensures
        r@ == drsample_tag(),
{
    let r: Vec<u8> = vec![
        0x46u8, 0x69u8, 0x6cu8, 0x65u8, 0x63u8, 0x6fu8, 0x69u8, 0x6eu8, 0x5fu8,
        0x44u8, 0x52u8, 0x53u8, 0x61u8, 0x6du8, 0x70u8, 0x6cu8, 0x65u8,
    ];
    proof {
        assert(r@ =~= drsample_tag());
    }
    r
}

fn feistel_tag_bytes() -> (r: Vec<u8>)
    ensures
        r@ == feistel_tag(),
{
    let r: Vec<u8> = vec![
        0x46u8, 0x69u8, 0x6cu8, 0x65u8, 0x63u8, 0x6fu8, 0x69u8, 0x6eu8, 0x5fu8,
        0x46u8, 0x65u8, 0x69u8, 0x73u8, 0x74u8, 0x65u8, 0x6cu8,
    ];
    proof {
        assert(r@ =~= feistel_tag());
    }
    r
}

/// The 28-byte bucket-sampling seed: the tagged digest of the porep id,
/// cut to its first 28 bytes.
pub open spec fn spec_drg_seed(porep_id: Seq<u8>) -> Seq<u8> {
    sha256_of(drsample_tag() + porep_id).take(28)
}

/// One of the four 64-bit Feistel keys: the tagged digest of the porep id,
/// read as little-endian words.
pub open spec fn spec_feistel_key(porep_id: Seq<u8>, i: int) -> u64 {
    le_int(sha256_of(feistel_tag() + porep_id).subrange(8 * i, 8 * i + 8)) as u64
}

/// One Feistel round: the BLAKE2b digest of the big-endian pair
/// `(right, key)`, its first eight bytes read big-endian, masked down to
/// the permutation's half width.
pub open spec fn spec_feistel_round(right: u64, key: u64, right_mask: u64) -> u64 {
    (be_int(
        blake2b_of(
            le_bytes(right as nat, 8).reverse() + le_bytes(key as nat, 8).reverse(),
        ).take(8),
    ) as u64) & right_mask
}

/// Three rounds of the balanced Feistel network over the first three keys.
pub open spec fn spec_feistel_encode(
    index: u64,
    k0: u64,
    k1: u64,
    k2: u64,
    right_mask: u64,
    half_bits: u64,
) -> u64
    recommends
        half_bits < 64,
{
    let l0 = (index & (right_mask << half_bits)) >> half_bits;
    let r0 = index & right_mask;
    let l1 = r0;
    let r1 = l0 ^ spec_feistel_round(r0, k0, right_mask);
    let l2 = r1;
    let r2 = l1 ^ spec_feistel_round(r1, k1, right_mask);
    let l3 = r2;
    let r3 = l2 ^ spec_feistel_round(r2, k2, right_mask);
    (l3 << half_bits) | r3
}

/// Iterates the Feistel cipher until the value lands below `num`, giving
/// up after `fuel` extra steps. Landing always comes within a handful of
/// steps in practice; the fuel merely keeps the definition total.
pub open spec fn spec_feistel_landing(
    u: u64,
    num: u64,
    k0: u64,
    k1: u64,
    k2: u64,
    right_mask: u64,
    half_bits: u64,
    fuel: nat,
) -> Option<u64>
    decreases fuel,
{
    if u < num {
        Some(u)
    } else if fuel == 0 {
        None
    } else {
        spec_feistel_landing(
            spec_feistel_encode(u, k0, k1, k2, right_mask, half_bits),
            num,
            k0,
            k1,
            k2,
            right_mask,
            half_bits,
            (fuel - 1) as nat,
        )
    }
}

/// How many extra encoding steps the permutation may take before the
/// search is abandoned.
pub open spec fn feistel_fuel() -> nat {
    0x100000000
}

/// The pseudo-random shuffle of `index` within `[0, num)`: encode, then
/// keep encoding while the value overshoots the range.
pub open spec fn spec_feistel_permute(
    num: u64,
    index: u64,
    k0: u64,
    k1: u64,
    k2: u64,
    right_mask: u64,
    half_bits: u64,
) -> Option<u64> {
    spec_feistel_landing(
        spec_feistel_encode(index, k0, k1, k2, right_mask, half_bits),
        num,
        k0,
        k1,
        k2,
        right_mask,
        half_bits,
        feistel_fuel(),
    )
}

/// The least `l`, from `from` up, for which four to the `l` covers `num`.
pub open spec fn log4_min(num: u64, from: nat) -> nat
    decreases 64 - from,
{
    if pow2(2 * from) >= num || from >= 64 {
        from
    } else {
        log4_min(num, from + 1)
    }
}

/// The permutation's half width in bits: the least `l >= 1` with
/// `4^l >= num`, as the precomputation's doubling loop finds it.
pub open spec fn spec_half_bits(num: u64) -> nat {
    log4_min(num, 1)
}

/// The mask covering the permutation's right half.
pub open spec fn spec_right_mask(num: u64) -> u64 {
    (pow2(spec_half_bits(num)) - 1) as u64
}

/// Computes the Feistel round function.
fn feistel_round(right: u64, key: u64, right_mask: u64) -> (r: u64)
    ensures
        r == spec_feistel_round(right, key, right_mask),
{
    let mut msg: Vec<u8> = Vec::new();
    push_be_bytes(&mut msg, right, 8);
    push_be_bytes(&mut msg, key, 8);
    let digest = blake2b(msg.as_slice());
    let first = vstd::slice::slice_subrange(digest.as_slice(), 0, 8);
    proof {
        assert(first@ =~= blake2b_of(msg@).take(8));
        lemma_be_int_bound(first@);
        lemma_pow256_bytes();
    }
    let v = be_bytes_to_u64(first);
    v & right_mask
}

/// Computes three Feistel rounds.
fn feistel_encode(
    index: u64,
    k0: u64,
    k1: u64,
    k2: u64,
    right_mask: u64,
    half_bits: u64,
) -> (r: u64)
    requires
        half_bits < 64,
    ensures
        r == spec_feistel_encode(index, k0, k1, k2, right_mask, half_bits),
{
    let l0 = (index & (right_mask << half_bits)) >> half_bits;
    let r0 = index & right_mask;
    let l1 = r0;
    let r1 = l0 ^ feistel_round(r0, k0, right_mask);
    let l2 = r1;
    let r2 = l1 ^ feistel_round(r1, k1, right_mask);
    let l3 = r2;
    let r3 = l2 ^ feistel_round(r2, k2, right_mask);
    (l3 << half_bits) | r3
}

/// Shuffles `index` within `[0, num)`, or gives `None` in the never-seen
/// case that the fuel runs out before the permutation lands.
fn feistel_permute(
    num: u64,
    index: u64,
    k0: u64,
    k1: u64,
    k2: u64,
    right_mask: u64,
    half_bits: u64,
) -> (r: Option<u64>)
    requires
        half_bits < 64,
    ensures
        r == spec_feistel_permute(num, index, k0, k1, k2, right_mask, half_bits),
{
    let mut u = feistel_encode(index, k0, k1, k2, right_mask, half_bits);
    let mut fuel: u64 = 0x100000000;
    while u >= num && fuel > 0
        invariant
            half_bits < 64,
            fuel <= feistel_fuel(),
            spec_feistel_landing(u, num, k0, k1, k2, right_mask, half_bits, fuel as nat)
                == spec_feistel_permute(num, index, k0, k1, k2, right_mask, half_bits),
        decreases fuel,
    {
        u = feistel_encode(u, k0, k1, k2, right_mask, half_bits);
        fuel = fuel - 1;
    }
    if u < num {
        Some(u)
    } else {
        None
    }
}

/// Finds the permutation's half width and right mask for a domain of
/// `num` elements.
fn feistel_precompute(num: u64) -> (r: (u64, u64))
    requires
        4 <= num <= 0x1000000000,
    ensures
        r.0 == spec_right_mask(num),
        r.1 == spec_half_bits(num),
        1 <= r.1 <= 19,
        r.0 == (pow2(r.1 as nat) - 1) as u64,
        pow2((2 * r.1) as nat) >= num,
{
    proof {
        vstd::arithmetic::power2::lemma2_to64();
    }
    let mut next_pow4: u64 = 4;
    let mut log4: u64 = 1;
    while next_pow4 < num
        invariant
            4 <= num <= 0x1000000000,
            1 <= log4 <= 19,
            4 <= next_pow4,
            next_pow4 == pow2((2 * log4) as nat),
            log4_min(num, 1) == log4_min(num, log4 as nat),
        decreases 19 - log4,
    {
        proof {
            vstd::arithmetic::power2::lemma2_to64();
            vstd::arithmetic::power2::lemma2_to64_rest();
            assert(pow2((2 * (log4 + 1)) as nat) == 4 * pow2((2 * log4) as nat)) by {
                vstd::arithmetic::power2::lemma_pow2_adds((2 * log4) as nat, 2);
            }
            if log4 >= 19 {
                assert(pow2(38) >= 0x1000000000);
            }
        }
        next_pow4 = next_pow4 * 4;
        log4 = log4 + 1;
    }
    proof {
        assert(log4_min(num, log4 as nat) == log4 as nat);
        vstd::arithmetic::power2::lemma2_to64();
        assert(pow2(log4 as nat) >= 1 && pow2(log4 as nat) <= 0x80000) by {
            vstd::arithmetic::power2::lemma_pow2_pos(log4 as nat);
            vstd::arithmetic::power2::lemma_pow2_adds(log4 as nat, log4 as nat);
            assert(pow2((2 * log4) as nat) == pow2(log4 as nat) * pow2(log4 as nat));
            if pow2(log4 as nat) > 0x80000 {
                vstd::arithmetic::power2::lemma_pow2_strictly_increases(19, log4 as nat);
            }
        }
    }
    proof {
        lemma_u64_shl_is_mul(1u64, log4);
        vstd::arithmetic::power2::lemma_pow2_pos(log4 as nat);
    }
    let mask = (1u64 << log4) - 1;
    (mask, log4)
}

/// The least `b`, from `from` up, for which two to the `b` covers `x`.
pub open spec fn clog2_min(x: u64, from: nat) -> nat
    decreases 64 - from,
{
    if pow2(from) >= x || from >= 64 {
        from
    } else {
        clog2_min(x, from + 1)
    }
}

/// The number of distance buckets over a metagraph of `x` positions: the
/// least `b` with two to the `b` at least `x`.
pub open spec fn spec_ceil_log2(x: u64) -> nat {
    clog2_min(x, 0)
}

/// Finds the least power of two covering `x`, by doubling.
fn ceil_log2(x: u64) -> (r: u64)
    requires
        1 <= x <= 0x2000000000,
    ensures
        r == spec_ceil_log2(x),
        r <= 37,
        pow2(r as nat) >= x,
        x >= 2 ==> r >= 1,
{
    proof {
        vstd::arithmetic::power2::lemma2_to64();
    }
    let mut b: u64 = 0;
    let mut p: u64 = 1;
    while p < x
        invariant
            1 <= x <= 0x2000000000,
            b <= 37,
            p == pow2(b as nat),
            clog2_min(x, 0) == clog2_min(x, b as nat),
        decreases 37 - b,
    {
        proof {
            vstd::arithmetic::power2::lemma2_to64();
            vstd::arithmetic::power2::lemma2_to64_rest();
            assert(pow2((b + 1) as nat) == 2 * pow2(b as nat)) by {
                vstd::arithmetic::power2::lemma_pow2_adds(b as nat, 1);
            }
            if b >= 37 {
                assert(pow2(37) >= 0x2000000000);
            }
        }
        p = p * 2;
        b = b + 1;
    }
    proof {
        if x >= 2 && b == 0 {
            assert(pow2(0) == 1);
        }
        assert(clog2_min(x, b as nat) == b as nat);
    }
    b
}

/// The verifier's stacked bucket graph: an adjacency rule over `nodes`
/// positions, fully determined by the porep id and the protocol version.
/// Nothing is materialised; parents are sampled on demand.
#[derive(Clone, Copy, Debug, PartialEq, Eq)]
pub struct VerifierStackedBucketGraph {
    pub nodes: usize,
    pub porep_id: [u8; 32],
    pub api_version: ApiVersion,
}

impl VerifierStackedBucketGraph {
    /// The sampler is defined over graphs of at least three nodes whose
    /// indices fit in 32 bits.
    pub open spec fn wf(&self) -> bool {
        3 <= self.nodes <= u32::MAX
    }

    pub open spec fn spec_size(&self) -> usize {
        self.nodes
    }

    /// The seed feeding the word stream that samples `node`'s parents.
    pub open spec fn spec_node_seed(&self, node: u32) -> Seq<u8> {
        spec_drg_seed(self.porep_id@) + le_bytes(node as nat, 4)
    }

    /// The `i`-th drawn base parent of `node`: one stream word picks a
    /// distance bucket, the next a distance inside it, and the metagraph
    /// position that far back maps down to a node. A draw that lands on
    /// the node itself falls back to its predecessor.
    pub open spec fn spec_drawn_parent(&self, node: u32, i: int) -> u32 {
        let seed = self.spec_node_seed(node);
        let metagraph = (node as int) * 5;
        let nb = spec_ceil_log2((node * 5) as u64) as int;
        let b = (chacha8_word(seed, 2 * i) as int) % nb + 1;
        let pb = pow2(b as nat) as int;
        let largest = if metagraph <= pb {
            metagraph
        } else {
            pb
        };
        let smallest = if largest / 2 >= 2 {
            largest / 2
        } else {
            2
        };
        let ndist = largest - smallest + 1;
        let dist = smallest + (chacha8_word(seed, 2 * i + 1) as int) % ndist;
        let mp = (metagraph - dist) / 5;
        if mp == node {
            (node - 1) as u32
        } else {
            mp as u32
        }
    }

    /// All six base parents of `node` in protocol order: the five drawn
    /// parents with the immediate predecessor placed last (first protocol
    /// revision) or first (later revisions). The first two nodes have no
    /// predecessors and point at node zero.
    pub open spec fn spec_base_parents(&self, node: usize) -> Seq<u32> {
        if node < 2 {
            Seq::new(6, |i: int| 0u32)
        } else {
            let drawn = Seq::new(5, |i: int| self.spec_drawn_parent(node as u32, i));
            match self.api_version {
                ApiVersion::V1_0_0 => drawn.push((node - 1) as u32),
                ApiVersion::V1_1_0 => seq![(node - 1) as u32] + drawn,
            }
        }
    }

    /// The number of nodes in the graph.
    pub fn size(&self) -> (r: usize)
        ensures
            r == self.spec_size(),
    {
        self.nodes
    }

    /// Samples the six base parents of `node`.
    pub fn base_parents(&self, node: usize) -> (r: Vec<u32>)
        requires
            self.wf(),
            node < self.nodes,
        ensures
            r@ == self.spec_base_parents(node),
            r@.len() == 6,
            forall|i: int| 0 <= i < 6 ==> (#[trigger] r@[i]) < self.nodes,
    {
        if node < 2 {
            let r: Vec<u32> = vec![0u32, 0u32, 0u32, 0u32, 0u32, 0u32];
            proof {
                assert(r@ =~= self.spec_base_parents(node));
            }
            return r;
        }
        let node32 = node as u32;
        let mut tagged = drsample_tag_bytes();
        tagged.extend_from_slice(vstd::array::array_as_slice(&self.porep_id));
        let digest = sha256(tagged.as_slice());
        let mut seedv: Vec<u8> = vstd::slice::slice_to_vec(
            vstd::slice::slice_subrange(digest.as_slice(), 0, 28),
        );
        push_le_bytes(&mut seedv, node32 as u64, 4);
        proof {
            assert(tagged@ =~= drsample_tag() + self.porep_id@);
            assert(seedv@ =~= self.spec_node_seed(node32));
        }
        let seed_arr = to_array32(seedv.as_slice());
        let mut rng = ChaChaStream::new(&seed_arr);
        let metagraph: u64 = (node as u64) * 5;
        let nb = ceil_log2(metagraph);
        let mut drawn: Vec<u32> = Vec::new();
        let mut i: usize = 0;
        while i < 5
            invariant
                i <= 5,
                self.wf(),
                2 <= node < self.nodes,
                node32 == node,
                metagraph == node * 5,
                nb == spec_ceil_log2(metagraph),
                1 <= nb <= 37,
                rng.seed@ == self.spec_node_seed(node32),
                rng.pos@ == 2 * i,
                drawn@.len() == i,
                forall|t: int|
                    0 <= t < i ==> (#[trigger] drawn@[t]) == self.spec_drawn_parent(node32, t)
                        && drawn@[t] < self.nodes,
            decreases 5 - i,
        {
            let w1 = rng.next_u64();
            let b = w1 % nb + 1;
            proof {
                vstd::arithmetic::power2::lemma2_to64();
                vstd::arithmetic::power2::lemma2_to64_rest();
                assert(pow2(b as nat) <= pow2(38)) by {
                    if b < 38 {
                        vstd::arithmetic::power2::lemma_pow2_strictly_increases(
                            b as nat,
                            38,
                        );
                    }
                }
                lemma_u64_shl_is_mul(1u64, b);
            }
            let shifted = 1u64 << b;
            let largest = if metagraph <= shifted {
                metagraph
            } else {
                shifted
            };
            proof {
                lemma_u64_shr_is_div(largest, 1u64);
                vstd::arithmetic::power2::lemma2_to64();
            }
            let half = largest >> 1;
            let smallest = if half >= 2 {
                half
            } else {
                2
            };
            proof {
                vstd::arithmetic::power2::lemma_pow2_pos(b as nat);
                assert(largest >= 2);
                assert(smallest <= largest);
            }
            let ndist = largest - smallest + 1;
            let w2 = rng.next_u64();
            let dist = smallest + w2 % ndist;
            proof {
                assert(2 <= dist <= metagraph);
                vstd::arithmetic::div_mod::lemma_multiply_divide_lt(
                    metagraph - dist,
                    5,
                    node as int,
                );
            }
            let mp64 = (metagraph - dist) / 5;
            let mp = mp64 as u32;
            let p = if mp == node32 {
                node32 - 1
            } else {
                mp
            };
            proof {
                assert(p == self.spec_drawn_parent(node32, i as int));
                assert(p < self.nodes);
            }
            drawn.push(p);
            i = i + 1;
        }
        let prev = node32 - 1;
        proof {
            assert(drawn@ =~= Seq::new(5, |t: int| self.spec_drawn_parent(node as u32, t)));
        }
        match self.api_version {
            ApiVersion::V1_0_0 => {
                let mut r = drawn;
                r.push(prev);
                proof {
                    assert(r@ =~= self.spec_base_parents(node));
                }
                r
            },
            ApiVersion::V1_1_0 => {
                let mut r: Vec<u32> = Vec::new();
                r.push(prev);
                r.extend_from_slice(drawn.as_slice());
                proof {
                    assert(r@ =~= self.spec_base_parents(node));
                }
                r
            },
        }
    }
}

/// Whatever value the permutation search lands on lies inside the range.
pub proof fn lemma_feistel_landing_bound(
    u: u64,
    num: u64,
    k0: u64,
    k1: u64,
    k2: u64,
    right_mask: u64,
    half_bits: u64,
    fuel: nat,
)
    ensures
        spec_feistel_landing(u, num, k0, k1, k2, right_mask, half_bits, fuel) matches Some(t)
            ==> t < num,
    decreases fuel,
{
    if u < num {
    } else if fuel == 0 {
    } else {
        lemma_feistel_landing_bound(
            spec_feistel_encode(u, k0, k1, k2, right_mask, half_bits),
            num,
            k0,
            k1,
            k2,
            right_mask,
            half_bits,
            (fuel - 1) as nat,
        );
    }
}

impl VerifierStackedBucketGraph {
    /// The `i`-th expander parent of `node` as the Feistel permutation
    /// shuffles it, or `None` in the never-seen case that the permutation
    /// search gave up.
    pub open spec fn spec_correspondent(&self, node: u32, i: int) -> Option<u32> {
        let num = (self.nodes * 8) as u64;
        let a = (node * 8 + i) as u64;
        let k0 = spec_feistel_key(self.porep_id@, 0);
        let k1 = spec_feistel_key(self.porep_id@, 1);
        let k2 = spec_feistel_key(self.porep_id@, 2);
        let rm = spec_right_mask(num);
        let hb = spec_half_bits(num) as u64;
        match spec_feistel_permute(num, a, k0, k1, k2, rm, hb) {
            None => None,
            Some(t) => Some(
                match self.api_version {
                    ApiVersion::V1_0_0 => ((((t as int) % 0x100000000) / 8) as u32),
                    ApiVersion::V1_1_0 => (((t as int) / 8) as u32),
                },
            ),
        }
    }

    /// Whether every expander parent's permutation search landed.
    pub open spec fn spec_expansion_parents_ok(&self, node: u32) -> bool {
        forall|i: int| 0 <= i < 8 ==> (#[trigger] self.spec_correspondent(node, i)).is_some()
    }

    /// The eight expander parents of `node`, in order.
    pub open spec fn spec_expansion_parents(&self, node: u32) -> Seq<u32> {
        Seq::new(8, |i: int| self.spec_correspondent(node, i)->Some_0)
    }

    /// Builds the adjacency rule over `nodes` positions for a porep id.
    pub fn new(nodes: usize, porep_id: [u8; 32], api_version: ApiVersion) -> (r: Self)
        requires
            3 <= nodes <= u32::MAX,
        ensures
            r.wf(),
            r.nodes == nodes,
            r.porep_id == porep_id,
            r.api_version == api_version,
    {
        VerifierStackedBucketGraph { nodes, porep_id, api_version }
    }

    /// The number of base parents of every node.
    pub fn degree(&self) -> (r: usize)
        ensures
            r == 6,
    {
        BASE_DEGREE
    }

    /// The number of expander parents of every node.
    pub fn expansion_degree(&self) -> (r: usize)
        ensures
            r == 8,
    {
        EXP_DEGREE
    }

    /// Samples the eight expander parents of `node`: each position in the
    /// node's row of the parent matrix is shuffled through the Feistel
    /// permutation and collapsed back to a node index.
    pub fn expansion_parents(&self, node: usize) -> (r: Option<Vec<u32>>)
        requires
            self.wf(),
            node < self.nodes,
        ensures
            r.is_some() == self.spec_expansion_parents_ok(node as u32),
            r matches Some(v) ==> v@ == self.spec_expansion_parents(node as u32),
            r matches Some(v) ==> forall|t: int|
                0 <= t < 8 ==> (#[trigger] v@[t]) < self.nodes,
    {
        let node32 = node as u32;
        let num: u64 = (self.nodes as u64) * 8;
        let mut tagged = feistel_tag_bytes();
        tagged.extend_from_slice(vstd::array::array_as_slice(&self.porep_id));
        let digest = sha256(tagged.as_slice());
        proof {
            assert(tagged@ =~= feistel_tag() + self.porep_id@);
            lemma_pow256_bytes();
            lemma_le_int_bound(digest@.subrange(0, 8));
            lemma_le_int_bound(digest@.subrange(8, 16));
            lemma_le_int_bound(digest@.subrange(16, 24));
        }
        let k0 = le_bytes_to_u64(vstd::slice::slice_subrange(digest.as_slice(), 0, 8));
        let k1 = le_bytes_to_u64(vstd::slice::slice_subrange(digest.as_slice(), 8, 16));
        let k2 = le_bytes_to_u64(vstd::slice::slice_subrange(digest.as_slice(), 16, 24));
        proof {
            assert(k0 == spec_feistel_key(self.porep_id@, 0));
            assert(k1 == spec_feistel_key(self.porep_id@, 1));
            assert(k2 == spec_feistel_key(self.porep_id@, 2));
        }
        let (rm, hb) = feistel_precompute(num);
        let mut out: Vec<u32> = Vec::new();
        let mut i: usize = 0;
        while i < 8
            invariant
                i <= 8,
                self.wf(),
                node < self.nodes,
                node32 == node,
                num == self.nodes * 8,
                k0 == spec_feistel_key(self.porep_id@, 0),
                k1 == spec_feistel_key(self.porep_id@, 1),
                k2 == spec_feistel_key(self.porep_id@, 2),
                rm == spec_right_mask(num),
                hb == spec_half_bits(num),
                hb < 64,
                out@.len() == i,
                forall|t: int|
                    0 <= t < i ==> (#[trigger] self.spec_correspondent(node32, t)).is_some()
                        && out@[t] == self.spec_correspondent(node32, t)->Some_0
                        && out@[t] < self.nodes,
            decreases 8 - i,
        {
            let a: u64 = (node as u64) * 8 + (i as u64);
            match feistel_permute(num, a, k0, k1, k2, rm, hb) {
                None => {
                    proof {
                        assert(self.spec_correspondent(node32, i as int) is None);
                        assert(!self.spec_expansion_parents_ok(node32));
                    }
                    return None;
                },
                Some(t) => {
                    proof {
                        lemma_feistel_landing_bound(
                            spec_feistel_encode(a, k0, k1, k2, rm, hb),
                            num,
                            k0,
                            k1,
                            k2,
                            rm,
                            hb,
                            feistel_fuel(),
                        );
                        assert(t < num);
                        vstd::arithmetic::div_mod::lemma_multiply_divide_lt(
                            t as int,
                            8,
                            self.nodes as int,
                        );
                        vstd::arithmetic::div_mod::lemma_mod_decreases(
                            t as nat,
                            0x100000000,
                        );
                        vstd::arithmetic::div_mod::lemma_div_is_ordered(
                            (t as int) % 0x100000000,
                            t as int,
                            8,
                        );
                        vstd::arithmetic::div_mod::lemma_mod_bound(
                            t as int,
                            0x100000000,
                        );
                    }
                    let p: u32 = match self.api_version {
                        ApiVersion::V1_0_0 => ((t % 0x100000000) / 8) as u32,
                        ApiVersion::V1_1_0 => (t / 8) as u32,
                    };
                    proof {
                        assert(self.spec_correspondent(node32, i as int) == Some(p));
                    }
                    out.push(p);
                },
            }
            i = i + 1;
        }
        proof {
            assert(out@ =~= self.spec_expansion_parents(node32));
        }
        Some(out)
    }
}

} // verus!
