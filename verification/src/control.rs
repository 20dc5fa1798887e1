//! The control surface: request dispatch and response rendering for the
//! polling loop. The transport waits and replies at the caller's edge; what
//! is answered is decided and rendered here.

use vstd::prelude::*;
use crate::errors::PlayerError;

verus! {

/// The meaningful routes of the control surface.
pub enum Route {
    /// The root page: announce the current track.
    Status,
    /// Terminate the current track and move on.
    Skip,
    /// Anything else.
    Other,
}

/// Dispatches a request path to its route.
pub fn route_of(url: &str) -> (r: Route)
    ensures
        url@ == ("/skip")@ ==> r is Skip,
        url@ == ("/")@ ==> r is Status,
        url@ != ("/skip")@ && url@ != ("/")@ ==> r is Other,
{
    proof {
        reveal_strlit("/skip");
        reveal_strlit("/");
    }
    let u = url.to_owned();
    proof {
        assert(("/")@.len() == 1);
        assert(("/skip")@.len() == 5);
    }
    if u == ("/skip").to_owned() {
        Route::Skip
    } else if u == ("/").to_owned() {
        Route::Status
    } else {
        Route::Other
    }
}

/// The status page for a pulled track.
pub open spec fn status_body(track: Seq<char>) -> Seq<char> {
    ("current track: ")@ + track + ("<br/><a href=\"/skip\">skip</a>")@
}

/// The status page before anything has been pulled.
pub open spec fn no_track_body() -> Seq<char> {
    ("no track yet<br/><a href=\"/skip\">skip</a>")@
}

/// The page a successful skip answers with: a self-redirect back to the root.
pub open spec fn redirect_body() -> Seq<char> {
    ("<html><head><meta http-equiv=\"refresh\" content=\"0; url=/\"/></head></html>")@
}

/// The page a failed skip answers with.
pub open spec fn skip_error_body(detail: Seq<char>) -> Seq<char> {
    ("unable to skip track: ")@ + detail
}

/// The answer to any unrecognized route.
pub open spec fn other_body() -> Seq<char> {
    ("supported request")@
}

/// Renders the status page: the current track when one has been pulled, and
/// a safe "no track yet" page before the first tick.
pub fn render_status(current: &Option<String>) -> (r: String)
    ensures
        (current matches Some(t) ==> r@ == status_body(t@)),
        current is None ==> r@ == no_track_body(),
{
    match current {
        Some(t) => {
            let mut r = ("current track: ").to_owned();
            r.append(t.as_str());
            r.append("<br/><a href=\"/skip\">skip</a>");
            r
        },
        None => ("no track yet<br/><a href=\"/skip\">skip</a>").to_owned(),
    }
}

/// Renders the answer to a skip request from its outcome; `detail` is the
/// failure's description.
pub fn render_skip(outcome: &Result<(), PlayerError>, detail: &str) -> (r: String)
    ensures
        outcome is Ok ==> r@ == redirect_body(),
        outcome is Err ==> r@ == skip_error_body(detail@),
{
    match outcome {
        Ok(_) => (
        "<html><head><meta http-equiv=\"refresh\" content=\"0; url=/\"/></head></html>").to_owned(),
        Err(_) => {
            let mut r = ("unable to skip track: ").to_owned();
            r.append(detail);
            r
        },
    }
}

/// Renders the deliberately permissive answer to every other route.
pub fn render_other() -> (r: String)
    ensures
        r@ == other_body(),
{
    ("supported request").to_owned()
}

} // verus!
