//! The shuffled track sequence and the cursor that walks it.

use vstd::prelude::*;
use crate::errors::PlayerError;
use crate::shuffle::{permute, shuffled_of};
use crate::state::State;

verus! {

/// An immutable shuffled sequence of track paths. The cursor lives in
/// `State`; the playlist only reads and advances it.
pub struct Playlist {
    files: Vec<String>,
}

impl View for Playlist {
    type V = Seq<Seq<char>>;

    closed spec fn view(&self) -> Seq<Seq<char>> {
        self.files.deep_view()
    }
}

impl Playlist {
    /// Shuffles the raw track list once with the given seed. An empty list is
    /// refused: there would be nothing for the cursor to point at.
    pub fn build(raw_tracks: Vec<String>, seed: u64) -> (r: Result<Playlist, PlayerError>)
        ensures
            raw_tracks.len() == 0 ==> (r matches Err(e) && e == PlayerError::Empty),
            raw_tracks.len() > 0 ==> (r matches Ok(p) && p@ == shuffled_of(
                raw_tracks.deep_view(),
                seed,
            ) && p@.to_multiset() == raw_tracks.deep_view().to_multiset() && p@.len()
                == raw_tracks.len()),
    {
        if raw_tracks.len() == 0 {
            Err(PlayerError::Empty)
        } else {
            Ok(Playlist { files: permute(raw_tracks, seed) })
        }
    }

    /// How many tracks the playlist holds.
    pub fn len(&self) -> (n: usize)
        ensures
            n == self@.len(),
    {
        self.files.len()
    }

    /// Returns the track under the cursor and advances the cursor past it.
    /// At or past the end nothing is returned and the cursor stays put.
    pub fn next(&self, state: &mut State) -> (r: Result<String, PlayerError>)
        ensures
            old(state).index < self@.len() ==> (r matches Ok(t) && t@ == self@[old(
                state,
            ).index as int] && final(state).index == old(state).index + 1 && final(state).seed
                == old(state).seed),
            old(state).index >= self@.len() ==> (r matches Err(e) && e
                == PlayerError::ExhaustedPlaylist && *final(state) == *old(state)),
    {
        if state.index < self.files.len() as u64 {
            let i = state.index as usize;
            state.index = state.index + 1;
            Ok(self.files[i].clone())
        } else {
            Err(PlayerError::ExhaustedPlaylist)
        }
    }
}

} // verus!
