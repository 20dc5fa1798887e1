use shuffleplay::control::{render_other, render_skip, render_status, route_of, Route};
use shuffleplay::errors::PlayerError;
use shuffleplay::player::{Player, TickAction};
use shuffleplay::playlist::Playlist;
use shuffleplay::shuffle::permute;
use shuffleplay::state::State;

fn tracks10() -> Vec<String> {
    vec![
        "a.mp3".to_string(),
        "b.mp3".to_string(),
        "c.mp3".to_string(),
        "d.mp3".to_string(),
        "e.mp3".to_string(),
        "f.mp3".to_string(),
        "g.mp3".to_string(),
        "h.mp3".to_string(),
        "i.mp3".to_string(),
        "j.mp3".to_string(),
    ]
}

fn tracks3() -> Vec<String> {
    vec!["a.mp3".to_string(), "b.mp3".to_string(), "c.mp3".to_string()]
}

#[test]
fn permute_is_deterministic() {
    let once = permute(tracks10(), 42);
    let twice = permute(tracks10(), 42);
    assert_eq!(once, twice);
}

#[test]
fn permute_depends_on_the_seed() {
    let one = permute(tracks10(), 1);
    let two = permute(tracks10(), 2);
    assert_ne!(one, two);
}

#[test]
fn permute_keeps_every_track() {
    let mut shuffled = permute(tracks10(), 7);
    shuffled.sort();
    let mut original = tracks10();
    original.sort();
    assert_eq!(shuffled, original);
}

#[test]
fn permute_reorders() {
    let shuffled = permute(tracks10(), 1);
    assert_ne!(shuffled, tracks10());
}

#[test]
fn empty_track_list_is_refused() {
    match Playlist::build(Vec::new(), 7) {
        Err(e) => assert_eq!(e, PlayerError::Empty),
        Ok(_) => panic!("an empty playlist was accepted"),
    }
}

#[test]
fn next_walks_the_shuffled_order() {
    let expected = permute(tracks3(), 42);
    let playlist = Playlist::build(tracks3(), 42).expect("three tracks");
    let mut st = State { seed: 42, index: 0 };
    for (i, want) in expected.iter().enumerate() {
        let got = playlist.next(&mut st).expect("a track is left");
        assert_eq!(&got, want);
        assert_eq!(st.index, i as u64 + 1);
    }
}

#[test]
fn advance_at_the_end_is_exhausted() {
    let playlist = Playlist::build(tracks3(), 42).expect("three tracks");
    let mut st = State { seed: 42, index: 3 };
    match playlist.next(&mut st) {
        Err(e) => assert_eq!(e, PlayerError::ExhaustedPlaylist),
        Ok(_) => panic!("advanced past the end"),
    }
    assert_eq!(st.index, 3);
    st.index = 100;
    match playlist.next(&mut st) {
        Err(e) => assert_eq!(e, PlayerError::ExhaustedPlaylist),
        Ok(_) => panic!("advanced past the end"),
    }
    assert_eq!(st.index, 100);
}

#[test]
fn tick_persists_the_advanced_cursor_before_any_spawn() {
    let expected = permute(tracks3(), 42);
    let playlist = Playlist::build(tracks3(), 42).expect("three tracks");
    let mut player = Player::new(playlist, State { seed: 42, index: 0 });
    match player.tick() {
        TickAction::Start { track, doc } => {
            assert_eq!(track, expected[0]);
            assert_eq!(doc, "[general]\nseed=42\nindex=1\n");
            let reloaded = State::parse(&doc).expect("the persisted document loads");
            assert_eq!(reloaded.seed, 42);
            assert_eq!(reloaded.index, 1);
        }
        _ => panic!("an idle player with tracks left must start one"),
    }
    assert_eq!(player.state.index, 1);
    assert!(!player.running);
}

#[test]
fn spawn_failure_leaves_idle_and_skips_the_track() {
    let expected = permute(tracks3(), 42);
    let playlist = Playlist::build(tracks3(), 42).expect("three tracks");
    let mut player = Player::new(playlist, State { seed: 42, index: 0 });
    match player.tick() {
        TickAction::Start { track, .. } => assert_eq!(track, expected[0]),
        _ => panic!("expected a start"),
    }
    player.spawn_result(false);
    assert!(!player.running);
    match player.tick() {
        TickAction::Start { track, .. } => assert_eq!(track, expected[1]),
        _ => panic!("the next tick must try the following track"),
    }
}

#[test]
fn skip_while_idle_is_a_noop() {
    let playlist = Playlist::build(tracks3(), 42).expect("three tracks");
    let mut player = Player::new(playlist, State { seed: 42, index: 0 });
    assert!(!player.has_child());
    assert!(player.skip_result(true).is_ok());
    assert!(!player.running);
    assert_eq!(player.state.index, 0);
}

#[test]
fn skip_while_running_reaps_or_surfaces_the_error() {
    let playlist = Playlist::build(tracks3(), 42).expect("three tracks");
    let mut player = Player::new(playlist, State { seed: 42, index: 0 });
    match player.tick() {
        TickAction::Start { .. } => {}
        _ => panic!("expected a start"),
    }
    player.spawn_result(true);
    assert!(player.has_child());
    match player.skip_result(false) {
        Err(e) => assert_eq!(e, PlayerError::ProcessControl),
        Ok(_) => panic!("a failed kill must be surfaced"),
    }
    assert!(player.running);
    assert!(player.skip_result(true).is_ok());
    assert!(!player.running);
}

#[test]
fn exhausted_playlist_stops_starting_tracks() {
    let playlist = Playlist::build(vec!["only.mp3".to_string()], 5).expect("one track");
    let mut player = Player::new(playlist, State { seed: 5, index: 0 });
    match player.tick() {
        TickAction::Start { .. } => {}
        _ => panic!("expected a start"),
    }
    player.spawn_result(true);
    match player.tick() {
        TickAction::Check => {}
        _ => panic!("a running player is only checked"),
    }
    player.child_exited();
    match player.tick() {
        TickAction::Exhausted => {}
        _ => panic!("past the end nothing starts"),
    }
    assert_eq!(player.state.index, 1);
}

#[test]
fn routes_dispatch_as_documented() {
    assert!(matches!(route_of("/"), Route::Status));
    assert!(matches!(route_of("/skip"), Route::Skip));
    assert!(matches!(route_of("/status"), Route::Other));
    assert!(matches!(route_of(""), Route::Other));
}

#[test]
fn responses_render_exactly() {
    assert_eq!(render_status(&None), "no track yet<br/><a href=\"/skip\">skip</a>");
    assert_eq!(
        render_status(&Some("x.mp3".to_string())),
        "current track: x.mp3<br/><a href=\"/skip\">skip</a>"
    );
    assert_eq!(
        render_skip(&Ok(()), ""),
        "<html><head><meta http-equiv=\"refresh\" content=\"0; url=/\"/></head></html>"
    );
    assert_eq!(
        render_skip(&Err(PlayerError::ProcessControl), "kill failed"),
        "unable to skip track: kill failed"
    );
    assert_eq!(render_other(), "supported request");
}

#[test]
fn end_to_end_scenario() {
    let tracks = tracks3();
    let expected = permute(tracks.clone(), 42);
    let playlist = Playlist::build(tracks, 42).expect("three tracks");
    let mut player = Player::new(playlist, State { seed: 42, index: 0 });

    // Before the first tick the status page has a safe default.
    assert_eq!(render_status(&player.current), "no track yet<br/><a href=\"/skip\">skip</a>");

    // First tick starts the first shuffled track.
    match player.tick() {
        TickAction::Start { track, doc } => {
            assert_eq!(track, expected[0]);
            assert_eq!(doc, "[general]\nseed=42\nindex=1\n");
        }
        _ => panic!("expected a start"),
    }
    player.spawn_result(true);
    let status = render_status(&player.current);
    assert_eq!(
        status,
        format!("current track: {}<br/><a href=\"/skip\">skip</a>", expected[0])
    );

    // A skip terminates the child; the following tick starts the next track.
    assert!(matches!(route_of("/skip"), Route::Skip));
    assert!(player.has_child());
    let outcome = player.skip_result(true);
    assert!(outcome.is_ok());
    assert_eq!(
        render_skip(&outcome, ""),
        "<html><head><meta http-equiv=\"refresh\" content=\"0; url=/\"/></head></html>"
    );
    let second_doc = match player.tick() {
        TickAction::Start { track, doc } => {
            assert_eq!(track, expected[1]);
            doc
        }
        _ => panic!("expected a start"),
    };
    player.spawn_result(true);

    // After two advances the persisted state shows cursor 2.
    assert_eq!(second_doc, "[general]\nseed=42\nindex=2\n");
    let persisted = State::parse(&second_doc).expect("the persisted document loads");
    assert_eq!(persisted.index, 2);
    assert_eq!(persisted.seed, 42);
}
