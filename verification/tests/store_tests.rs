use plato_feed::error::FeedError;
use plato_feed::store::{SnapEntry, StateStore};

fn rec(id: &str, path: &str, lu: i64) -> SnapEntry {
    SnapEntry { id: id.as_bytes().to_vec(), path: path.as_bytes().to_vec(), last_update: lu }
}

fn find<'a>(snap: &'a [SnapEntry], id: &str) -> Option<&'a SnapEntry> {
    snap.iter().find(|e| e.id == id.as_bytes())
}

#[test]
fn unchanged_entry_is_carried_forward() {
    let mut store = StateStore::from_records(vec![rec("a", "out/a.epub", 100)]);
    // feed reports an older update time: carried, producer never invoked
    assert!(store.decide(&b"a".to_vec(), Some(50)));
    store.apply_carry(&b"a".to_vec());
    let snap = store.into_merged();
    assert_eq!(snap.len(), 1);
    let e = find(&snap, "a").unwrap();
    assert_eq!(e.path, b"out/a.epub".to_vec());
    assert_eq!(e.last_update, 100);
}

#[test]
fn no_update_time_means_carry() {
    let store = StateStore::from_records(vec![rec("a", "p", 7)]);
    assert!(store.decide(&b"a".to_vec(), None));
}

#[test]
fn missing_record_means_produce() {
    let store = StateStore::from_records(vec![rec("a", "p", 7)]);
    assert!(!store.decide(&b"b".to_vec(), Some(1)));
    assert!(!store.decide(&b"b".to_vec(), None));
}

#[test]
fn newer_update_means_produce() {
    let store = StateStore::from_records(vec![rec("a", "p", 7)]);
    assert!(!store.decide(&b"a".to_vec(), Some(8)));
}

#[test]
fn failed_produce_keeps_prior_record() {
    let mut store = StateStore::from_records(vec![rec("a", "old.epub", 100)]);
    assert!(!store.decide(&b"a".to_vec(), Some(200)));
    let r = store.apply_produce(&b"a".to_vec(), Some(200), Err(FeedError::Network), 999);
    assert_eq!(r, Err(FeedError::Network));
    let snap = store.into_merged();
    let e = find(&snap, "a").unwrap();
    assert_eq!(e.path, b"old.epub".to_vec());
    assert_eq!(e.last_update, 100);
}

#[test]
fn failed_produce_without_prior_leaves_entry_absent() {
    let mut store = StateStore::from_records(vec![]);
    assert!(!store.decide(&b"a".to_vec(), Some(1)));
    let r = store.apply_produce(&b"a".to_vec(), Some(1), Err(FeedError::Cancelled), 5);
    assert_eq!(r, Err(FeedError::Cancelled));
    let snap = store.into_merged();
    assert!(find(&snap, "a").is_none());
    assert!(snap.is_empty());
}

#[test]
fn successful_produce_records_feed_time() {
    let mut store = StateStore::from_records(vec![]);
    assert!(!store.decide(&b"a".to_vec(), Some(42)));
    let r = store.apply_produce(&b"a".to_vec(), Some(42), Ok(b"new.epub".to_vec()), 1000);
    assert_eq!(r, Ok(()));
    let snap = store.into_merged();
    let e = find(&snap, "a").unwrap();
    assert_eq!(e.path, b"new.epub".to_vec());
    assert_eq!(e.last_update, 42);
}

#[test]
fn successful_produce_without_feed_time_records_now() {
    let mut store = StateStore::from_records(vec![]);
    let r = store.apply_produce(&b"a".to_vec(), None, Ok(b"n.epub".to_vec()), 1000);
    assert_eq!(r, Ok(()));
    let snap = store.into_merged();
    assert_eq!(find(&snap, "a").unwrap().last_update, 1000);
}

#[test]
fn unseen_keys_survive_shutdown_merge() {
    let mut store = StateStore::from_records(vec![rec("seen", "s", 1), rec("unseen", "u", 2)]);
    assert!(store.decide(&b"seen".to_vec(), Some(1)));
    store.apply_carry(&b"seen".to_vec());
    let snap = store.into_merged();
    assert_eq!(snap.len(), 2);
    assert_eq!(find(&snap, "unseen").unwrap().path, b"u".to_vec());
}

#[test]
fn duplicate_ids_in_backing_file_keep_first() {
    let store = StateStore::from_records(vec![rec("a", "first", 1), rec("a", "second", 2)]);
    let snap = store.into_merged();
    assert_eq!(snap.len(), 1);
    assert_eq!(find(&snap, "a").unwrap().path, b"first".to_vec());
}

// Two consecutive runs against an unchanged feed: the second run carries
// every entry — zero producer invocations — and its snapshot equals the
// first run's.
#[test]
fn second_run_is_identical() {
    let entries: Vec<(&[u8], Option<i64>)> = vec![(b"e1", Some(10)), (b"e2", None)];

    // first run: nothing known, both entries produced
    let mut run1 = StateStore::from_records(vec![]);
    for (id, updated) in &entries {
        let idv = id.to_vec();
        assert!(!run1.decide(&idv, *updated));
        let path = format!("out/{}.epub", String::from_utf8_lossy(id)).into_bytes();
        run1.apply_produce(&idv, *updated, Ok(path), 500).unwrap();
    }
    let snap1 = run1.into_merged();

    // second run: every entry carries; the producer is never invoked
    let records: Vec<SnapEntry> = snap1
        .iter()
        .map(|e| SnapEntry {
            id: e.id.clone(),
            path: e.path.clone(),
            last_update: e.last_update,
        })
        .collect();
    let mut run2 = StateStore::from_records(records);
    for (id, updated) in &entries {
        let idv = id.to_vec();
        assert!(run2.decide(&idv, *updated), "second run must carry every entry");
        run2.apply_carry(&idv);
    }
    let snap2 = run2.into_merged();

    assert_eq!(snap1.len(), snap2.len());
    for e1 in &snap1 {
        let e2 = snap2.iter().find(|e| e.id == e1.id).unwrap();
        assert_eq!(e1.path, e2.path);
        assert_eq!(e1.last_update, e2.last_update);
    }
}

// One entry fails while its sibling succeeds: the failure stays confined to
// its entry.
#[test]
fn sibling_entries_are_independent() {
    let mut store = StateStore::from_records(vec![]);
    let r1 = store.apply_produce(&b"bad".to_vec(), None, Err(FeedError::NoContent), 7);
    assert_eq!(r1, Err(FeedError::NoContent));
    let r2 = store.apply_produce(&b"good".to_vec(), None, Ok(b"g.epub".to_vec()), 7);
    assert_eq!(r2, Ok(()));
    let snap = store.into_merged();
    assert!(find(&snap, "bad").is_none());
    assert!(find(&snap, "good").is_some());
}

#[test]
fn equal_update_time_is_not_stale() {
    let store = StateStore::from_records(vec![rec("a", "p", 100)]);
    assert!(store.decide(&b"a".to_vec(), Some(100)));
}
