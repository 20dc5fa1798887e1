//! The player supervisor: a state machine owning the cursor, the playlist
//! and the knowledge of whether an external player child is alive. The
//! outside work itself (writing the document, spawning, killing, reaping)
//! happens at the caller's edge; every decision is made here.

use vstd::prelude::*;
use crate::errors::PlayerError;
use crate::playlist::Playlist;
use crate::state::{State, doc_spec, lemma_doc_injective};

verus! {

/// What one supervision step asks the caller to do.
pub enum TickAction {
    /// A new track was pulled. Persist `doc` first, then spawn the external
    /// player for `track`, and report the outcome through `spawn_result`.
    Start { track: String, doc: String },
    /// A child is believed to be running: check whether it has exited, and
    /// call `child_exited` if it has.
    Check,
    /// The cursor has run past the end of the playlist; nothing to start.
    /// The playlist neither wraps around nor reshuffles: the player simply
    /// stays idle, and the cursor keeps its position.
    Exhausted,
}

/// One running instance: playlist, durable state and child bookkeeping,
/// bundled so a single exclusive reference drives the whole loop.
pub struct Player {
    pub playlist: Playlist,
    pub state: State,
    /// Whether an external player child is believed to exist.
    pub running: bool,
    /// The track most recently pulled from the playlist, if any.
    pub current: Option<String>,
}

impl Player {
    /// A freshly started instance: idle, nothing pulled yet.
    pub fn new(playlist: Playlist, state: State) -> (p: Player)
        ensures
            p.playlist == playlist,
            p.state == state,
            !p.running,
            p.current is None,
    {
        Player { playlist, state, running: false, current: None }
    }

    /// One supervision step. Idle with a track left: the cursor advances and
    /// the returned document already carries the advanced cursor, before any
    /// spawn is attempted. Running: only a liveness check is requested.
    pub fn tick(&mut self) -> (r: TickAction)
        ensures
            old(self).running ==> (r is Check && *final(self) == *old(self)),
            !old(self).running && old(self).state.index < old(self).playlist@.len() ==> ((
            r matches TickAction::Start { track, doc } && track@ == old(
                self,
            ).playlist@[old(self).state.index as int] && doc@ == doc_spec(
                old(self).state.seed,
                (old(self).state.index + 1) as u64,
            ) && (final(self).current matches Some(c) && c@ == track@)) && final(self).state.seed
                == old(self).state.seed && final(self).state.index == old(self).state.index + 1
                && final(self).playlist == old(self).playlist && !final(self).running),
            !old(self).running && old(self).state.index >= old(self).playlist@.len() ==> (
            r is Exhausted && *final(self) == *old(self)),
    {
        if self.running {
            TickAction::Check
        } else {
            match self.playlist.next(&mut self.state) {
                Ok(t) => {
                    let doc = self.state.encode();
                    self.current = Some(t.clone());
                    TickAction::Start { track: t, doc }
                },
                Err(_) => TickAction::Exhausted,
            }
        }
    }

    /// Reports the outcome of the spawn attempt that a `Start` asked for. On
    /// failure the player stays idle while the cursor keeps its advanced,
    /// already-persisted position: a persistently failing player skips
    /// tracks rather than retrying them.
    pub fn spawn_result(&mut self, ok: bool)
        ensures
            final(self).running == ok,
            final(self).playlist == old(self).playlist,
            final(self).state == old(self).state,
            final(self).current == old(self).current,
    {
        self.running = ok;
    }

    /// The running child was observed to have exited; its exit status does
    /// not matter.
    pub fn child_exited(&mut self)
        ensures
            !final(self).running,
            final(self).playlist == old(self).playlist,
            final(self).state == old(self).state,
            final(self).current == old(self).current,
    {
        self.running = false;
    }

    /// Whether a skip has a child to terminate first.
    pub fn has_child(&self) -> (b: bool)
        ensures
            b == self.running,
    {
        self.running
    }

    /// Settles a skip request. While idle a skip is a no-op that succeeds:
    /// no process exists, none is created. While running, a successful
    /// kill-and-reap leaves the player idle with no lingering child; a
    /// failed one is surfaced as `ProcessControl` and nothing is forgotten.
    pub fn skip_result(&mut self, kill_ok: bool) -> (r: Result<(), PlayerError>)
        ensures
            !old(self).running ==> (r is Ok && *final(self) == *old(self)),
            old(self).running && kill_ok ==> (r is Ok && !final(self).running
                && final(self).playlist == old(self).playlist
                && final(self).state == old(self).state
                && final(self).current == old(self).current),
            old(self).running && !kill_ok ==> ((r matches Err(e) && e
                == PlayerError::ProcessControl) && *final(self) == *old(self)),
    {
        if self.running {
            if kill_ok {
                self.running = false;
                Ok(())
            } else {
                Err(PlayerError::ProcessControl)
            }
        } else {
            Ok(())
        }
    }
}

/// Crash consistency: the document handed out together with a freshly pulled
/// track already names the cursor after that track. Whatever is reloaded
/// from that document therefore resumes at the following track, never
/// replaying the one whose start the write preceded.
pub proof fn lemma_crash_consistency(doc: Seq<char>, seed: u64, cursor: u64, se: u64, ix: u64)
    requires
        cursor < u64::MAX,
        doc == doc_spec(seed, (cursor + 1) as u64),
        doc == doc_spec(se, ix),
    ensures
        se == seed,
        ix == cursor + 1,
{
    lemma_doc_injective(seed, (cursor + 1) as u64, se, ix);
}

} // verus!
