//! The store and cache: snapshots, incremental batches, the freshness
//! sweep, the staleness clock and the change bus.

use lobby_is_up::cache::LobbyCache;
use lobby_is_up::errors::LobbyCacheError;
use lobby_is_up::model::lobby_eq;
use lobby_is_up::store::LobbyStore;

fn snapshot_frame() -> Vec<u8> {
    r#"{"allcurrentlobbies":{"42":{"maxplayers":8,"relayserver_region":"eu","lobbyid":42,"slotstaken":2,"slotstotal":8,"slot":{"s0":{"color":"1","team":null,"civ":"br","name":"B"},"s1":{"color":"2","team":"1","civ":"fr","name":"A"}}}}}"#.as_bytes().to_vec()
}

#[test]
fn snapshot_inserts_and_notifies() {
    let mut cache = LobbyCache::new();
    let mut rx = cache.subscribe();
    let r = cache.handle_message(&snapshot_frame(), 10);
    assert!(matches!(r, Ok(true)));
    let got = cache.lookup(&b"42".to_vec()).expect("record inserted");
    assert_eq!(got.lobbyid, 42);
    assert_eq!(got.slotstaken, 2);
    assert_eq!(got.slotstotal, 8);
    assert_eq!(got.relayserver_region, b"eu".to_vec());
    assert!(rx.try_recv().is_ok());
    assert!(rx.try_recv().is_err());
    assert_eq!(cache.last_update_time(), Some(10));
}

#[test]
fn identical_snapshot_twice_is_idempotent() {
    let mut cache = LobbyCache::new();
    cache.handle_message(&snapshot_frame(), 10).unwrap();
    let first = cache.lookup(&b"42".to_vec()).unwrap();
    cache.handle_message(&snapshot_frame(), 10).unwrap();
    let second = cache.lookup(&b"42".to_vec()).unwrap();
    assert!(lobby_eq(&first, &second));
}

#[test]
fn incremental_deletes_and_upserts() {
    let mut cache = LobbyCache::new();
    cache.handle_message(&snapshot_frame(), 10).unwrap();
    let frame = r#"{"deletedlobbies":[42],"updatedlobbies":{"7":{"maxplayers":4,"relayserver_region":"us","lobbyid":7,"slotstaken":1,"slotstotal":4,"slot":{}}}}"#.as_bytes().to_vec();
    let r = cache.handle_message(&frame, 11);
    assert!(matches!(r, Ok(true)));
    assert!(cache.lookup(&b"42".to_vec()).is_none());
    let seven = cache.lookup(&b"7".to_vec()).unwrap();
    assert_eq!(seven.lobbyid, 7);
}

#[test]
fn empty_incremental_does_not_notify() {
    let mut cache = LobbyCache::new();
    let mut rx = cache.subscribe();
    let frame = br#"{"deletedlobbies":[],"updatedlobbies":{}}"#.to_vec();
    let r = cache.handle_message(&frame, 5);
    assert!(matches!(r, Ok(false)));
    assert!(rx.try_recv().is_err());
    assert_eq!(cache.last_update_time(), Some(5));
}

#[test]
fn empty_snapshot_still_notifies() {
    let mut cache = LobbyCache::new();
    let mut rx = cache.subscribe();
    let frame = br#"{"allcurrentlobbies":{}}"#.to_vec();
    let r = cache.handle_message(&frame, 5);
    assert!(matches!(r, Ok(true)));
    assert!(rx.try_recv().is_ok());
}

#[test]
fn unparseable_frame_changes_nothing() {
    let mut cache = LobbyCache::new();
    cache.handle_message(&snapshot_frame(), 10).unwrap();
    let r = cache.handle_message(&b"{nonsense".to_vec(), 99);
    match r {
        Err(LobbyCacheError::Parsing(e)) => {
            assert_eq!(e.message, b"{nonsense".to_vec());
        }
        other => panic!("expected a parsing error, got {:?}", other),
    }
    // the store and the staleness clock are untouched
    assert!(cache.lookup(&b"42".to_vec()).is_some());
    assert_eq!(cache.last_update_time(), Some(10));
}

#[test]
fn stale_entry_swept_without_delete() {
    let mut cache = LobbyCache::new();
    cache.handle_message(&snapshot_frame(), 0).unwrap();
    assert!(cache.lookup(&b"42".to_vec()).is_some());
    // a batch arrives 121 seconds later and never mentions "42"
    let frame = br#"{"deletedlobbies":[],"updatedlobbies":{}}"#.to_vec();
    cache.handle_message(&frame, 121).unwrap();
    assert!(cache.lookup(&b"42".to_vec()).is_none());
}

#[test]
fn entry_at_window_edge_survives() {
    let mut cache = LobbyCache::new();
    cache.handle_message(&snapshot_frame(), 0).unwrap();
    let frame = br#"{"deletedlobbies":[],"updatedlobbies":{}}"#.to_vec();
    cache.handle_message(&frame, 120).unwrap();
    assert!(cache.lookup(&b"42".to_vec()).is_some());
}

#[test]
fn cache_usable_tracks_staleness_window() {
    let mut cache = LobbyCache::new();
    assert!(!cache.cache_usable(0));
    cache.handle_message(&snapshot_frame(), 100).unwrap();
    assert!(cache.cache_usable(100));
    assert!(cache.cache_usable(160));
    assert!(!cache.cache_usable(161));
}

#[test]
fn store_ops_roundtrip() {
    let mut store = LobbyStore::new();
    assert_eq!(store.len(), 0);
    let lobby = lobby_is_up::model::Lobby {
        maxplayers: 2,
        relayserver_region: b"eu".to_vec(),
        lobbyid: 5,
        slotstaken: 0,
        slotstotal: 2,
        slot: Vec::new(),
    };
    store.upsert(b"5".to_vec(), lobby, 50);
    assert_eq!(store.len(), 1);
    assert_eq!(store.last_seen(&b"5".to_vec()), Some(50));
    assert!(store.lookup(&b"5".to_vec()).is_some());
    assert!(store.lookup(&b"6".to_vec()).is_none());
    store.remove(&b"5".to_vec());
    assert!(store.lookup(&b"5".to_vec()).is_none());
    assert_eq!(store.len(), 0);
}

#[test]
fn store_clear_and_sweep() {
    let mut store = LobbyStore::new();
    let lobby = lobby_is_up::model::Lobby {
        maxplayers: 2,
        relayserver_region: b"eu".to_vec(),
        lobbyid: 5,
        slotstaken: 0,
        slotstotal: 2,
        slot: Vec::new(),
    };
    store.upsert(b"a".to_vec(), lobby.clone(), 0);
    store.upsert(b"b".to_vec(), lobby.clone(), 100);
    store.sweep(121);
    assert!(store.lookup(&b"a".to_vec()).is_none());
    assert!(store.lookup(&b"b".to_vec()).is_some());
    store.clear();
    assert_eq!(store.len(), 0);
    assert!(store.lookup(&b"b".to_vec()).is_none());
}
