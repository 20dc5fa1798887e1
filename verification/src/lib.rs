//! The playback core of a small unattended playlist player: a seeded,
//! reproducible shuffle of a track list, a crash-resumable cursor persisted
//! through a human-readable key/value document, a supervisor for at most one
//! external player process, and the dispatch and rendering of a tiny control
//! surface. The caller performs the outside work (storage, transport,
//! processes); every decision about it is made and proved here.

pub mod control;
pub mod digits;
pub mod errors;
pub mod player;
pub mod playlist;
pub mod shuffle;
pub mod state;
