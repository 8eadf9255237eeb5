//! Deterministic derivation of the per-partition challenge indices from
//! the replica id, the challenge seed and the partition index.

use crate::bytes::{le_bytes, le_int, push_le_bytes};
use crate::field::DomainElement;
use crate::hashing::{sha256, sha256_of};
use vstd::arithmetic::div_mod::{
    lemma_add_mod_noop, lemma_mod_bound, lemma_mul_mod_noop_left, lemma_small_mod,
};
use vstd::prelude::*;

verus! {

/// How many stacked layers the setup encodes and how many challenges each
/// partition asks of every layer.
#[derive(Clone, Copy, Debug, PartialEq, Eq, Structural)]
pub struct LayerChallenges {
    pub layers: usize,
    pub max_count: usize,
}

/// The policy floor a setup's total challenge count is held against.
#[derive(Clone, Copy, Debug, PartialEq, Eq, Structural)]
pub struct ChallengeRequirements {
    pub minimum_challenges: u64,
}

/// The bytes hashed for one challenge slot: replica id, seed, then the
/// global slot number as four little-endian bytes.
pub open spec fn challenge_message(replica_id: Seq<u8>, seed: Seq<u8>, j: u32) -> Seq<u8> {
    replica_id + seed + le_bytes(j as nat, 4)
}

/// One derived challenge: the slot digest taken little-endian, reduced
/// modulo `leaves - 1`, then shifted up by one so the first graph node is
/// never challenged.
pub open spec fn spec_challenge_index(
    leaves: usize,
    replica_id: Seq<u8>,
    seed: Seq<u8>,
    j: u32,
) -> usize
    recommends
        leaves >= 2,
{
    (le_int(sha256_of(challenge_message(replica_id, seed, j))) % ((leaves - 1) as nat) + 1) as usize
}

/// The whole challenge sequence of partition `k` when each partition holds
/// `count` slots: slot numbers run from `count * k` upward, in order.
pub open spec fn spec_partition_challenges(
    count: nat,
    leaves: usize,
    replica_id: Seq<u8>,
    seed: Seq<u8>,
    k: nat,
) -> Seq<usize> {
    Seq::new(count, |i: int| spec_challenge_index(leaves, replica_id, seed, (count * k + i) as u32))
}

/// Every derived challenge index lands strictly between zero and `leaves`.
pub proof fn lemma_challenge_in_range(leaves: usize, replica_id: Seq<u8>, seed: Seq<u8>, j: u32)
    requires
        leaves >= 2,
    ensures
        1 <= spec_challenge_index(leaves, replica_id, seed, j) < leaves,
{
    lemma_mod_bound(
        le_int(sha256_of(challenge_message(replica_id, seed, j))) as int,
        (leaves - 1) as int,
    );
}

/// Reduces a byte string's little-endian value modulo `m`, most
/// significant byte first.
pub fn mod_le_bytes(digest: &[u8], m: u64) -> (r: u64)
    requires
        m >= 1,
    ensures
        r == le_int(digest@) % (m as nat),
{
    let n = digest.len();
    let mut acc: u128 = 0;
    let mut i: usize = n;
    proof {
        assert(digest@.skip(n as int) =~= Seq::<u8>::empty());
        lemma_small_mod(0, m as nat);
    }
    while i > 0
        invariant
            i <= n,
            digest@.len() == n,
            acc == le_int(digest@.skip(i as int)) % (m as nat),
            m >= 1,
        decreases i,
    {
        i = i - 1;
        proof {
            let x = le_int(digest@.skip(i + 1)) as int;
            let b = digest@[i as int] as int;
            let mi = m as int;
            assert(digest@.skip(i as int).drop_first() =~= digest@.skip(i + 1));
            assert(le_int(digest@.skip(i as int)) == b + 256 * le_int(digest@.skip(i + 1)));
            lemma_mod_bound(x, mi);
            lemma_mul_mod_noop_left(x, 256, mi);
            lemma_add_mod_noop((x % mi) * 256, b, mi);
            lemma_add_mod_noop(x * 256, b, mi);
            assert(((x % mi) * 256 + b) % mi == (x * 256 + b) % mi);
        }
        acc = (acc * 256 + (digest[i] as u128)) % (m as u128);
    }
    proof {
        assert(digest@.skip(0) =~= digest@);
        lemma_mod_bound(le_int(digest@) as int, m as int);
    }
    acc as u64
}

impl LayerChallenges {
    /// Well-formed setups ask at least one challenge of at least one layer,
    /// and keep the whole slot space inside 32 bits for every partition.
    pub open spec fn wf(&self) -> bool {
        &&& 1 <= self.layers
        &&& 1 <= self.max_count
        &&& self.layers * self.max_count * 256 <= u32::MAX
    }

    /// How many layers the setup stacks.
    pub open spec fn spec_layers(&self) -> usize {
        self.layers
    }

    /// How many challenges each partition derives: the per-layer budget
    /// summed over all layers.
    pub open spec fn spec_count_all(&self) -> nat {
        (self.layers * self.max_count) as nat
    }

    pub fn new(layers: usize, max_count: usize) -> (r: LayerChallenges)
        requires
            1 <= layers,
            1 <= max_count,
            layers * max_count * 256 <= u32::MAX,
        ensures
            r.wf(),
            r.layers == layers,
            r.max_count == max_count,
            r.spec_count_all() == layers * max_count,
    {
        LayerChallenges { layers, max_count }
    }

    pub fn layers(&self) -> (r: usize)
        ensures
            r == self.spec_layers(),
    {
        self.layers
    }

    /// The number of challenges one partition carries.
    pub fn challenges_count_all(&self) -> (r: usize)
        requires
            self.wf(),
        ensures
            r == self.spec_count_all(),
    {
        self.layers * self.max_count
    }

    /// Derives partition `k`'s challenge indices: for each slot, a
    /// domain-separated digest of `(replica_id ‖ seed ‖ slot)` reduced
    /// into `[1, leaves)`. The same inputs always give the same sequence.
    pub fn derive(
        &self,
        leaves: usize,
        replica_id: &DomainElement,
        seed: &[u8; 32],
        k: u8,
    ) -> (r: Vec<usize>)
        requires
            self.wf(),
            leaves >= 2,
        ensures
            r@ == spec_partition_challenges(
                self.spec_count_all(),
                leaves,
                replica_id@,
                seed@,
                k as nat,
            ),
            r@.len() == self.spec_count_all(),
            forall|t: int| 0 <= t < r@.len() ==> 1 <= #[trigger] r@[t] < leaves,
    {
        proof {
            assert(self.layers * self.max_count <= self.layers * self.max_count * 256)
                by (nonlinear_arith);
        }
        let count = self.layers * self.max_count;
        proof {
            assert(count * (k as usize) + count <= count * 256) by (nonlinear_arith)
                requires
                    k < 256,
                    count >= 0,
            ;
            assert(count * 256 == self.layers * self.max_count * 256) by (nonlinear_arith)
                requires
                    count == self.layers * self.max_count,
            ;
        }
        let base = count * (k as usize);
        let mut out: Vec<usize> = Vec::new();
        let mut i: usize = 0;
        while i < count
            invariant
                i <= count,
                count == self.spec_count_all(),
                base == count * (k as usize),
                base + count <= u32::MAX,
                leaves >= 2,
                out@.len() == i,
                forall|t: int|
                    0 <= t < i ==> #[trigger] out@[t] == spec_challenge_index(
                        leaves,
                        replica_id@,
                        seed@,
                        (count * (k as nat) + t) as u32,
                    ),
                forall|t: int| 0 <= t < i ==> 1 <= #[trigger] out@[t] < leaves,
            decreases count - i,
        {
            let j: u32 = (base + i) as u32;
            let mut msg: Vec<u8> = Vec::new();
            msg.extend_from_slice(vstd::array::array_as_slice(&replica_id.bytes));
            msg.extend_from_slice(seed);
            push_le_bytes(&mut msg, j as u64, 4);
            proof {
                assert(msg@ =~= challenge_message(replica_id@, seed@, j));
            }
            let digest = sha256(msg.as_slice());
            let m: u64 = (leaves - 1) as u64;
            let idx = mod_le_bytes(digest.as_slice(), m);
            proof {
                lemma_challenge_in_range(leaves, replica_id@, seed@, j);
            }
            out.push((idx + 1) as usize);
            i = i + 1;
        }
        proof {
            assert(out@ =~= spec_partition_challenges(
                self.spec_count_all(),
                leaves,
                replica_id@,
                seed@,
                k as nat,
            ));
        }
        out
    }
}

} // verus!
