//! Trusted boundary to the seeded ChaCha8 word stream the base graph
//! samples its parents with.

use rand::RngCore;
use rand::SeedableRng;
use rand_chacha::ChaCha8Rng;
use vstd::pervasive::arbitrary;
use vstd::prelude::*;

verus! {

#[verifier::external_type_specification]
#[verifier::external_body]
pub struct ExChaCha8Rng(ChaCha8Rng);

/// The word at position `idx` of the ChaCha8 stream seeded with `seed`:
/// a pure function of the seed and the position.
pub uninterp spec fn chacha8_word(seed: Seq<u8>, idx: int) -> u64;

/// A seeded ChaCha8 word stream along with the seed it was built from and
/// how many words have been read.
pub struct ChaChaStream {
    pub inner: ChaCha8Rng,
    pub seed: Ghost<Seq<u8>>,
    pub pos: Ghost<int>,
}

impl ChaChaStream {
    /// Relies on rand_chacha's `ChaCha8Rng::from_seed`: the stream drawn
    /// from it is determined by the 32-byte seed alone.
    #[verifier::external_body]
    pub fn new(seed: &[u8; 32]) -> (r: ChaChaStream)
        ensures
            r.seed@ == seed@,
            r.pos@ == 0,
    {
        ChaChaStream {
            inner: ChaCha8Rng::from_seed(*seed),
            seed: Ghost(arbitrary()),
            pos: Ghost(arbitrary()),
        }
    }

    /// Relies on rand_core's `RngCore::next_u64` for `ChaCha8Rng`: each
    /// call hands out the next 64-bit word of the seeded stream.
    #[verifier::external_body]
    pub fn next_u64(&mut self) -> (r: u64)
        ensures
            final (self).seed@ == old(self).seed@,
            final (self).pos@ == old(self).pos@ + 1,
            r == chacha8_word(old(self).seed@, old(self).pos@),
    {
        self.inner.next_u64()
    }
}

} // verus!
