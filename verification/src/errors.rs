//! The failure taxonomy of the player core.

use vstd::prelude::*;

verus! {

/// Everything that can go wrong around the playback core.
///
/// `Io`, `ProcessSpawn` and `ProcessControl` arise at the edges (storage,
/// spawning and supervising the external player); the rest arise inside the
/// core's own logic.
#[derive(PartialEq, Eq, Structural, Clone, Copy, Debug)]
pub enum PlayerError {
    /// Reading the track list or reading/writing the state document failed.
    Io,
    /// A state document was present but is not a valid encoding.
    Malformed,
    /// The raw track list holds no tracks.
    Empty,
    /// The cursor ran past the end of the playlist.
    ExhaustedPlaylist,
    /// The external player process could not be started.
    ProcessSpawn,
    /// Killing or reaping the external player process failed.
    ProcessControl,
}

} // verus!
