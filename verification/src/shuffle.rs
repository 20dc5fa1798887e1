//! The deterministic shuffle: a seeded pseudo-random permutation of the raw
//! track list.

use vstd::prelude::*;
use rand::SeedableRng;
use rand::seq::SliceRandom;

verus! {

/// The permutation that the seeded generator produces for a given track list
/// and seed. It depends on those two arguments alone, so two runs over the
/// same inputs agree.
pub uninterp spec fn shuffled_of(tracks: Seq<Seq<char>>, seed: u64) -> Seq<Seq<char>>;

/// Relies on `rand::rngs::StdRng::seed_from_u64` and
/// `rand::seq::SliceRandom::shuffle`: the generator is a pure function of the
/// seed, and the shuffle reorders the slice in place by swaps (Fisher-Yates),
/// so the result is a permutation of the input determined by the input and
/// the seed alone.
#[verifier::external_body]
fn shuffle_with_seed(tracks: Vec<String>, seed: u64) -> (r: Vec<String>)
    ensures
        r.deep_view() == shuffled_of(tracks.deep_view(), seed),
        r.deep_view().to_multiset() == tracks.deep_view().to_multiset(),
        r.len() == tracks.len(),
{
    let mut tracks = tracks;
    let mut rng = rand::rngs::StdRng::seed_from_u64(seed);
    tracks.shuffle(&mut rng);
    tracks
}

/// Determinism: any two results of `permute` over the same track list and
/// the same seed are the identical sequence, since each run's contract pins
/// its result to the same function of those two inputs alone.
pub proof fn lemma_shuffle_deterministic(
    tracks: Seq<Seq<char>>,
    seed: u64,
    r1: Seq<Seq<char>>,
    r2: Seq<Seq<char>>,
)
    requires
        r1 == shuffled_of(tracks, seed),
        r2 == shuffled_of(tracks, seed),
    ensures
        r1 == r2,
{
}

/// Applies the seeded permutation once: same tracks and same seed give the
/// identical sequence, and every track of the input comes out exactly as
/// often as it went in.
pub fn permute(tracks: Vec<String>, seed: u64) -> (r: Vec<String>)
    ensures
        r.deep_view() == shuffled_of(tracks.deep_view(), seed),
        r.deep_view().to_multiset() == tracks.deep_view().to_multiset(),
        r.len() == tracks.len(),
{
    shuffle_with_seed(tracks, seed)
}

} // verus!
