//! The watch admission table: the key bound, the per-key queue bound with
//! its oldest-eviction, and the garbage collection of emptied keys.

use lobby_is_up::admission::WatchAdmission;
use lobby_is_up::errors::CommandError;

#[test]
fn sixth_distinct_key_fails_while_five_active() {
    let mut table = WatchAdmission::new();
    for k in [b"k1".to_vec(), b"k2".to_vec(), b"k3".to_vec(), b"k4".to_vec(), b"k5".to_vec()] {
        assert!(table.register(&k).is_ok());
    }
    assert_eq!(table.tracked_keys(), 5);
    let r = table.register(&b"k6".to_vec());
    assert!(matches!(r, Err(CommandError::TooManyLobbies)));
    assert_eq!(table.tracked_keys(), 5);
}

#[test]
fn already_tracked_key_never_fails() {
    let mut table = WatchAdmission::new();
    for k in [b"k1".to_vec(), b"k2".to_vec(), b"k3".to_vec(), b"k4".to_vec(), b"k5".to_vec()] {
        assert!(table.register(&k).is_ok());
    }
    // the global count is at its bound, yet a tracked key still admits
    assert!(table.register(&b"k3".to_vec()).is_ok());
    assert_eq!(table.tracked_keys(), 5);
}

#[test]
fn fourth_watcher_evicts_exactly_the_oldest() {
    let mut table = WatchAdmission::new();
    let key = b"lobby".to_vec();
    let (id1, ev1) = table.register(&key).unwrap();
    let (id2, ev2) = table.register(&key).unwrap();
    let (id3, ev3) = table.register(&key).unwrap();
    assert!(ev1.is_none() && ev2.is_none() && ev3.is_none());
    assert_eq!(table.queue_of(&key).unwrap(), vec![id3, id2, id1]);
    let (id4, ev4) = table.register(&key).unwrap();
    assert_eq!(ev4, Some(id1));
    // the queue stabilises at the bound, newest first
    assert_eq!(table.queue_of(&key).unwrap(), vec![id4, id3, id2]);
    let (id5, ev5) = table.register(&key).unwrap();
    assert_eq!(ev5, Some(id2));
    assert_eq!(table.queue_of(&key).unwrap(), vec![id5, id4, id3]);
}

#[test]
fn last_unregister_drops_key_entirely() {
    let mut table = WatchAdmission::new();
    let key = b"lobby".to_vec();
    let (id, _) = table.register(&key).unwrap();
    assert_eq!(table.tracked_keys(), 1);
    table.unregister(&key, id);
    assert!(table.queue_of(&key).is_none());
    assert_eq!(table.tracked_keys(), 0);
}

#[test]
fn register_after_emptying_succeeds_on_its_own_merits() {
    let mut table = WatchAdmission::new();
    for k in [b"k1".to_vec(), b"k2".to_vec(), b"k3".to_vec(), b"k4".to_vec()] {
        table.register(&k).unwrap();
    }
    let key = b"k5".to_vec();
    let (id, _) = table.register(&key).unwrap();
    // at the bound: a sixth key is refused
    assert!(table.register(&b"k6".to_vec()).is_err());
    // the fifth key's last watcher leaves; the key is gone, room opens
    table.unregister(&key, id);
    assert!(table.queue_of(&key).is_none());
    assert!(table.register(&b"k6".to_vec()).is_ok());
}

#[test]
fn unregister_keeps_other_watchers_in_order() {
    let mut table = WatchAdmission::new();
    let key = b"lobby".to_vec();
    let (id1, _) = table.register(&key).unwrap();
    let (id2, _) = table.register(&key).unwrap();
    let (id3, _) = table.register(&key).unwrap();
    table.unregister(&key, id2);
    assert_eq!(table.queue_of(&key).unwrap(), vec![id3, id1]);
    // the key stays tracked while watchers remain
    assert_eq!(table.tracked_keys(), 1);
}

#[test]
fn unregister_leaves_other_keys_alone() {
    let mut table = WatchAdmission::new();
    let (ida, _) = table.register(&b"a".to_vec()).unwrap();
    let (idb, _) = table.register(&b"b".to_vec()).unwrap();
    table.unregister(&b"a".to_vec(), ida);
    assert_eq!(table.queue_of(&b"b".to_vec()).unwrap(), vec![idb]);
    assert_eq!(table.tracked_keys(), 1);
}
