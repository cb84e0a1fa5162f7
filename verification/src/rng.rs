//! Sources of random 64-bit words.
//!
//! The search is agnostic to the generator behind it: anything that can
//! produce a uniformly random 64-bit word per call will do, and each worker
//! owns its source exclusively. The trait carries a spec-level `stream`: the
//! sequence of words a source is pinned to produce next. A source backed by
//! outside randomness pins nothing (its stream is empty, so nothing is
//! promised of its output); a replay source is pinned to its word list,
//! which is what makes the search's contracts exact for deterministic runs.

use vstd::prelude::*;

verus! {

/// A source of random 64-bit words, owned by a single worker.
pub trait RandNumGen {
    /// The words this source is pinned to produce next, in order. Empty
    /// when nothing is known of the source's future output.
    spec fn stream(&self) -> Seq<u64>;

    /// Draw the next 64-bit word, consuming the head of the stream.
    fn gen(&mut self) -> (r: u64)
        ensures
            old(self).stream().len() > 0 ==> (r == old(self).stream()[0] && final(self).stream()
                == old(self).stream().skip(1)),
            old(self).stream().len() == 0 ==> final(self).stream().len() == 0,
    ;
}

/// A deterministic source that replays a fixed list of words, then yields
/// zeros once the list is exhausted.
pub struct ReplaySource {
    words: Vec<u64>,
    pos: usize,
}

impl ReplaySource {
    /// Builds a source pinned to produce exactly `words`.
    pub fn new(words: Vec<u64>) -> (r: ReplaySource)
        ensures
            r.stream() == words@,
    {
        let r = ReplaySource { words, pos: 0 };
        proof {
            assert(r.stream() =~= r.words@);
        }
        r
    }
}

impl RandNumGen for ReplaySource {
    closed spec fn stream(&self) -> Seq<u64> {
        if self.pos <= self.words.len() {
            self.words@.skip(self.pos as int)
        } else {
            Seq::empty()
        }
    }

    fn gen(&mut self) -> (r: u64) {
        if self.pos < self.words.len() {
            let w = self.words[self.pos];
            self.pos = self.pos + 1;
            proof {
                assert(self.stream() =~= old(self).stream().skip(1));
            }
            w
        } else {
            0
        }
    }
}

/// An external type: the wyhash generator of the fastrand crate.
#[verifier::external_type_specification]
#[verifier::external_body]
pub struct ExFastrandRng(fastrand::Rng);

/// The fast non-cryptographic generator: fastrand's wyhash algorithm.
pub struct FastRand {
    inner: fastrand::Rng,
}

impl FastRand {
    /// Relies on `fastrand::Rng::new`: a fresh generator seeded from the
    /// thread-local source.
    #[verifier::external_body]
    pub fn new() -> (r: FastRand) {
        FastRand { inner: fastrand::Rng::new() }
    }

    /// Relies on `fastrand::Rng::with_seed`: a generator in the exact state
    /// given by `seed`, so that equal seeds replay equal word sequences.
    #[verifier::external_body]
    pub fn with_seed(seed: u64) -> (r: FastRand) {
        FastRand { inner: fastrand::Rng::with_seed(seed) }
    }
}

impl FastRand {
    /// Relies on `fastrand::Rng::u64` over the full range, which draws one
    /// word and never panics there (only an empty range panics).
    #[verifier::external_body]
    fn next_word(&mut self) -> (r: u64) {
        self.inner.u64(..)
    }
}

impl RandNumGen for FastRand {
    /// Nothing is pinned of a generator backed by outside randomness.
    open spec fn stream(&self) -> Seq<u64> {
        Seq::empty()
    }

    fn gen(&mut self) -> (r: u64) {
        self.next_word()
    }
}

/// An external type: the xoroshiro128++ generator of the rand_xoshiro
/// crate.
#[verifier::external_type_specification]
#[verifier::external_body]
pub struct ExXoroshiro(rand_xoshiro::Xoroshiro128PlusPlus);

/// The xoroshiro128++ generator: comparable quality, slightly slower than
/// wyhash.
pub struct XoshiroRand {
    inner: rand_xoshiro::Xoroshiro128PlusPlus,
}

impl XoshiroRand {
    /// Relies on `SeedableRng::seed_from_u64`: a generator in a state
    /// derived from `seed` alone, so that equal seeds replay equal word
    /// sequences.
    #[verifier::external_body]
    pub fn from_seed(seed: u64) -> (r: XoshiroRand) {
        XoshiroRand { inner: rand::SeedableRng::seed_from_u64(seed) }
    }
}

impl XoshiroRand {
    /// Relies on `Rng::next_u64` of rand_core, infallible for this
    /// generator: it draws one word.
    #[verifier::external_body]
    fn next_word(&mut self) -> (r: u64) {
        rand::Rng::next_u64(&mut self.inner)
    }
}

impl RandNumGen for XoshiroRand {
    /// Nothing is pinned of a generator backed by outside randomness.
    open spec fn stream(&self) -> Seq<u64> {
        Seq::empty()
    }

    fn gen(&mut self) -> (r: u64) {
        self.next_word()
    }
}

/// An external type: the ISAAC-64 generator of the rand_isaac crate.
#[verifier::external_type_specification]
#[verifier::external_body]
pub struct ExIsaac64(rand_isaac::Isaac64Rng);

/// The ISAAC-64 generator: slower, designed for stronger randomness.
pub struct IsaacRand {
    inner: rand_isaac::Isaac64Rng,
}

impl IsaacRand {
    /// Relies on `SeedableRng::seed_from_u64`: a generator in a state
    /// derived from `seed` alone, so that equal seeds replay equal word
    /// sequences.
    #[verifier::external_body]
    pub fn from_seed(seed: u64) -> (r: IsaacRand) {
        IsaacRand { inner: rand::SeedableRng::seed_from_u64(seed) }
    }
}

impl IsaacRand {
    /// Relies on `Rng::next_u64` of rand_core, infallible for this
    /// generator: it draws one word.
    #[verifier::external_body]
    fn next_word(&mut self) -> (r: u64) {
        rand::Rng::next_u64(&mut self.inner)
    }
}

impl RandNumGen for IsaacRand {
    /// Nothing is pinned of a generator backed by outside randomness.
    open spec fn stream(&self) -> Seq<u64> {
        Seq::empty()
    }

    fn gen(&mut self) -> (r: u64) {
        self.next_word()
    }
}

/// An external type: the standard generator of the rand crate.
#[verifier::external_type_specification]
#[verifier::external_body]
pub struct ExStdRng(rand::rngs::StdRng);

/// The rand crate's standard generator: the ChaCha block cipher, slowest
/// of the variants but cryptographically strong.
pub struct StdRand {
    inner: rand::rngs::StdRng,
}

impl StdRand {
    /// Relies on `SeedableRng::seed_from_u64`: a generator in a state
    /// derived from `seed` alone, so that equal seeds replay equal word
    /// sequences.
    #[verifier::external_body]
    pub fn from_seed(seed: u64) -> (r: StdRand) {
        StdRand { inner: rand::SeedableRng::seed_from_u64(seed) }
    }
}

impl StdRand {
    /// Relies on `Rng::next_u64` of rand_core, infallible for this
    /// generator: it draws one word.
    #[verifier::external_body]
    fn next_word(&mut self) -> (r: u64) {
        rand::Rng::next_u64(&mut self.inner)
    }
}

impl RandNumGen for StdRand {
    /// Nothing is pinned of a generator backed by outside randomness.
    open spec fn stream(&self) -> Seq<u64> {
        Seq::empty()
    }

    fn gen(&mut self) -> (r: u64) {
        self.next_word()
    }
}

} // verus!
