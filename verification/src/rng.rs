use vstd::prelude::*;
use rand::RngCore;
use rand::SeedableRng;

verus! {

/// `rand::rngs::StdRng`, declared so a value of it can live in a field here.
#[verifier::external_type_specification]
#[verifier::external_body]
pub struct ExStdRng(rand::rngs::StdRng);

/// The value returned by the `idx`-th `next_u64` call on a `StdRng` built
/// with `seed_from_u64(seed)`. For the pinned version of rand, `StdRng` is
/// the ChaCha12 generator: that stream is a function of the seed and of the
/// position in the stream alone, on every machine.
pub uninterp spec fn std_rng_stream(seed: u64, idx: u64) -> u64;

/// A seeded pseudo-random source: the generator together with its seed and
/// the count of values drawn so far, which locate it in the seed's stream.
/// Values of this type are only built by `SeededRng::new`, so the counters
/// always describe the generator they sit beside.
pub(crate) struct SeededRng {
    inner: rand::rngs::StdRng,
    seed_v: u64,
    drawn_v: u64,
}

impl SeededRng {
    /// The seed this source was built from.
    pub(crate) closed spec fn seed(self) -> u64 {
        self.seed_v
    }

    /// How many values have been drawn from this source.
    pub(crate) closed spec fn drawn(self) -> u64 {
        self.drawn_v
    }

    /// Relies on `rand::SeedableRng::seed_from_u64` for `StdRng`: it builds
    /// the generator from the seed alone, deterministically.
    #[verifier::external_body]
    pub(crate) fn new(seed: u64) -> (r: SeededRng)
        ensures
            r.seed() == seed,
            r.drawn() == 0,
    {
        SeededRng { inner: rand::rngs::StdRng::seed_from_u64(seed), seed_v: seed, drawn_v: 0 }
    }

    /// Relies on `rand::RngCore::next_u64` for `StdRng`: with the crate
    /// version pinned, the value drawn depends only on the seed and on how
    /// many values were drawn before; the draw counter records that position.
    #[verifier::external_body]
    pub(crate) fn next_u64(&mut self) -> (r: u64)
        requires
            old(self).drawn() < u64::MAX,
        ensures
            final(self).seed() == old(self).seed(),
            final(self).drawn() == old(self).drawn() + 1,
            r == std_rng_stream(old(self).seed(), old(self).drawn()),
    {
        self.drawn_v = self.drawn_v + 1;
        self.inner.next_u64()
    }
}

} // verus!
