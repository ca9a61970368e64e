//! The consumer side: id validation, rendering, the watch loop's decision
//! step, and the supervisor's state machine.

use lobby_is_up::bytes::i64_to_dec;
use lobby_is_up::cache::LobbyCache;
use lobby_is_up::model::{Lobby, Slot};
use lobby_is_up::supervisor::{
    host_of, supervisor_initial, supervisor_step, SupAction, SupEvent, SupervisorState,
};
use lobby_is_up::watch::{
    extract_colors, extract_lobby_id, extract_state, format_players, lobby_key_of_id,
    remaining_slots_text, state_eq, trim_bytes, watch_step, LobbyColor, WatchDecision, WatchEvent,
};

fn slot(name: Option<&str>) -> Slot {
    Slot {
        color: b"1".to_vec(),
        team: None,
        civ: b"br".to_vec(),
        name: name.map(|n| n.as_bytes().to_vec()),
    }
}

fn lobby_with(names: &[Option<&str>], taken: i64, total: i64) -> Lobby {
    Lobby {
        maxplayers: total,
        relayserver_region: b"eu".to_vec(),
        lobbyid: 42,
        slotstaken: taken,
        slotstotal: total,
        slot: names
            .iter()
            .enumerate()
            .map(|(i, n)| (format!("s{}", i).into_bytes(), slot(*n)))
            .collect(),
    }
}

#[test]
fn format_players_sorts_and_substitutes() {
    let lobby = lobby_with(
        &[Some("Bob"), Some("Alice"), None, Some("Open"), Some("Closed")],
        3,
        5,
    );
    assert_eq!(format_players(&lobby), b"Alice\nBob\nUnknown\n".to_vec());
}

#[test]
fn format_players_keeps_duplicates_and_empty_names() {
    let lobby = lobby_with(&[Some("Bob"), Some(""), Some("Bob")], 3, 3);
    assert_eq!(format_players(&lobby), b"\nBob\nBob\n".to_vec());
}

#[test]
fn format_players_empty_lobby() {
    let lobby = lobby_with(&[], 0, 2);
    assert_eq!(format_players(&lobby), b"".to_vec());
}

#[test]
fn extract_colors_tracks_free_seats() {
    assert_eq!(extract_colors(&lobby_with(&[], 1, 2)), LobbyColor::DarkGreen);
    assert_eq!(extract_colors(&lobby_with(&[], 2, 2)), LobbyColor::Red);
}

#[test]
fn remaining_slots_text_renders() {
    assert_eq!(remaining_slots_text(8, 6), b"+2".to_vec());
    assert_eq!(remaining_slots_text(8, 8), b"Lobby is full".to_vec());
    assert_eq!(remaining_slots_text(2, 5), b"Lobby is full".to_vec());
    assert_eq!(remaining_slots_text(i64::MAX, i64::MIN + 1), b"+18446744073709551614".to_vec());
}

#[test]
fn extract_lobby_id_validates() {
    assert_eq!(
        extract_lobby_id(&b"aoe2de://0/123456789".to_vec()),
        Some(b"aoe2de://0/123456789".to_vec())
    );
    assert_eq!(
        extract_lobby_id(&b"  aoe2de://0/42\t".to_vec()),
        Some(b"aoe2de://0/42".to_vec())
    );
    assert_eq!(extract_lobby_id(&b"aoe2de://0/".to_vec()), None);
    assert_eq!(extract_lobby_id(&b"aoe2de://0/12x".to_vec()), None);
    assert_eq!(extract_lobby_id(&b"aoe2de://1/123".to_vec()), None);
    assert_eq!(extract_lobby_id(&b"https://example.com".to_vec()), None);
    assert_eq!(extract_lobby_id(&b"".to_vec()), None);
}

#[test]
fn lobby_key_is_the_digits_after_the_last_slash() {
    assert_eq!(lobby_key_of_id(&b"aoe2de://0/123".to_vec()), b"123".to_vec());
    assert_eq!(lobby_key_of_id(&b"nodigits".to_vec()), b"nodigits".to_vec());
    assert_eq!(lobby_key_of_id(&b"a/b/c".to_vec()), b"c".to_vec());
}

#[test]
fn trim_strips_surrounding_whitespace() {
    assert_eq!(trim_bytes(&b" \t x y \r\n".to_vec()), b"x y".to_vec());
    assert_eq!(trim_bytes(&b"   ".to_vec()), b"".to_vec());
    assert_eq!(trim_bytes(&b"x".to_vec()), b"x".to_vec());
}

#[test]
fn decimal_rendering_is_exact() {
    assert_eq!(i64_to_dec(0), b"0".to_vec());
    assert_eq!(i64_to_dec(42), b"42".to_vec());
    assert_eq!(i64_to_dec(-7), b"-7".to_vec());
    assert_eq!(i64_to_dec(i64::MAX), b"9223372036854775807".to_vec());
    assert_eq!(i64_to_dec(i64::MIN), b"-9223372036854775808".to_vec());
}

#[test]
fn identical_records_render_exactly_once() {
    let lobby = lobby_with(&[Some("Alice"), Some("Bob")], 2, 4);
    let stale = extract_state(&lobby_with(&[], 0, 4));
    // first sighting: rendered
    let first = watch_step(&stale, WatchEvent::ChangeNotified, Some(&lobby));
    let rendered = match first {
        WatchDecision::RenderUpdate(s) => s,
        other => panic!("expected a render, got {:?}", other),
    };
    // the identical record again: no second render
    let second = watch_step(&rendered, WatchEvent::RefreshTick, Some(&lobby));
    assert!(matches!(second, WatchDecision::KeepWaiting));
}

#[test]
fn watch_step_ends_on_cancel_deadline_and_absence() {
    let lobby = lobby_with(&[Some("Alice")], 1, 2);
    let state = extract_state(&lobby);
    assert!(matches!(
        watch_step(&state, WatchEvent::Cancelled, Some(&lobby)),
        WatchDecision::FinalNoLongerLive
    ));
    assert!(matches!(
        watch_step(&state, WatchEvent::DeadlineReached, None),
        WatchDecision::FinalNoLongerLive
    ));
    assert!(matches!(
        watch_step(&state, WatchEvent::RefreshTick, None),
        WatchDecision::TerminalNoLongerActive
    ));
}

#[test]
fn watch_step_renders_changes() {
    let before = lobby_with(&[Some("Alice")], 1, 2);
    let after = lobby_with(&[Some("Alice"), Some("Bob")], 2, 2);
    let state = extract_state(&before);
    match watch_step(&state, WatchEvent::ChangeNotified, Some(&after)) {
        WatchDecision::RenderUpdate(s) => {
            assert!(state_eq(&s, &extract_state(&after)));
            assert_eq!(s.players, b"Alice\nBob\n".to_vec());
            assert_eq!(s.color, LobbyColor::Red);
            assert_eq!(s.id, b"42".to_vec());
        }
        other => panic!("expected a render, got {:?}", other),
    }
}

#[test]
fn supervisor_reconnects_after_idle_and_repopulates() {
    // the supervisor's part
    let (s0, a0) = supervisor_initial();
    assert_eq!(a0, SupAction::AttemptConnect);
    let (s1, a1) = supervisor_step(s0, SupEvent::ConnectSucceeded);
    assert_eq!(s1, SupervisorState::Connected);
    assert_eq!(a1, SupAction::ReadNextFrame);
    // 20 seconds of silence
    let (s2, a2) = supervisor_step(s1, SupEvent::IdleTimeout);
    assert_eq!(s2, SupervisorState::Backoff(5));
    assert_eq!(a2, SupAction::WaitRetry(5));
    let (s3, a3) = supervisor_step(s2, SupEvent::RetryDelayElapsed);
    assert_eq!(s3, SupervisorState::Connecting);
    assert_eq!(a3, SupAction::AttemptConnect);
    let (s4, _) = supervisor_step(s3, SupEvent::ConnectSucceeded);
    assert_eq!(s4, SupervisorState::Connected);
    // a subsequent full snapshot repopulates the store
    let mut cache = LobbyCache::new();
    let frame = r#"{"allcurrentlobbies":{"42":{"maxplayers":8,"relayserver_region":"eu","lobbyid":42,"slotstaken":1,"slotstotal":8,"slot":{}}}}"#.as_bytes().to_vec();
    cache.handle_message(&frame, 1000).unwrap();
    assert!(cache.lookup(&b"42".to_vec()).is_some());
}

#[test]
fn supervisor_terminates_only_on_shutdown() {
    for e in [
        SupEvent::ConnectFailed,
        SupEvent::FrameReceived,
        SupEvent::ReadError,
        SupEvent::StreamClosed,
        SupEvent::IdleTimeout,
        SupEvent::RetryDelayElapsed,
    ] {
        for s in [
            SupervisorState::Connecting,
            SupervisorState::Connected,
            SupervisorState::Backoff(5),
        ] {
            assert_ne!(supervisor_step(s, e).0, SupervisorState::Terminated);
        }
    }
    assert_eq!(
        supervisor_step(SupervisorState::Connected, SupEvent::ShutdownRequested),
        (SupervisorState::Terminated, SupAction::SendCloseAndStop)
    );
    assert_eq!(
        supervisor_step(SupervisorState::Backoff(7), SupEvent::ShutdownRequested),
        (SupervisorState::Terminated, SupAction::Stop)
    );
}

#[test]
fn supervisor_retry_waits_are_in_band() {
    let (_, a) = supervisor_step(SupervisorState::Connecting, SupEvent::ConnectFailed);
    assert_eq!(a, SupAction::WaitRetry(7));
    let (_, b) = supervisor_step(SupervisorState::Connected, SupEvent::ReadError);
    assert_eq!(b, SupAction::WaitRetry(5));
}

#[test]
fn host_of_strips_userinfo() {
    assert_eq!(host_of(&b"user@example.com:443".to_vec()), b"example.com:443".to_vec());
    assert_eq!(host_of(&b"example.com".to_vec()), b"example.com".to_vec());
}

#[test]
fn end_to_end_snapshot_lookup_render_delete() {
    let mut cache = LobbyCache::new();
    // (1) a full snapshot inserts key "42" with players [B, A]
    let frame = r#"{"allcurrentlobbies":{"42":{"maxplayers":8,"relayserver_region":"eu","lobbyid":42,"slotstaken":2,"slotstotal":8,"slot":{"s0":{"color":"1","team":null,"civ":"br","name":"B"},"s1":{"color":"2","team":"1","civ":"fr","name":"A"}}}}}"#.as_bytes().to_vec();
    cache.handle_message(&frame, 0).unwrap();
    let lobby = cache.lookup(&b"42".to_vec()).expect("inserted");
    // rendered player order is sorted [A, B]
    assert_eq!(format_players(&lobby), b"A\nB\n".to_vec());
    let state = extract_state(&lobby);
    // (2) an incremental message deletes "42"
    let del = br#"{"deletedlobbies":[42],"updatedlobbies":{}}"#.to_vec();
    cache.handle_message(&del, 1).unwrap();
    let gone = cache.lookup(&b"42".to_vec());
    assert!(gone.is_none());
    // any active watcher for it terminates as no longer active
    assert!(matches!(
        watch_step(&state, WatchEvent::ChangeNotified, gone.as_ref()),
        WatchDecision::TerminalNoLongerActive
    ));
}
