use clipboard_history::engine::accept_change;
use clipboard_history::history::ClipboardBuffer;
use clipboard_history::persistence::{read_snapshot, VersionCheck, CURRENT_VERSION};

#[test]
fn change_is_recorded_and_snapshotted() {
    let mut store = ClipboardBuffer::new(2);
    accept_change(&mut store, "first".to_string(), 10);
    accept_change(&mut store, "second".to_string(), 11);
    let snapshot = accept_change(&mut store, "third".to_string(), 12);
    assert_eq!(snapshot.version, CURRENT_VERSION);
    let written: Vec<(String, u64)> = snapshot.entries.iter().map(|e| (e.text.clone(), e.timestamp)).collect();
    assert_eq!(written, vec![("third".to_string(), 12), ("second".to_string(), 11)]);
    assert_eq!(store.len(), 2);
    assert_eq!(store.get(0).unwrap().text, "third");
}

#[test]
fn written_snapshot_restores_same_store() {
    let mut store = ClipboardBuffer::new(3);
    accept_change(&mut store, "a".to_string(), 1);
    accept_change(&mut store, "b".to_string(), 2);
    let snapshot = accept_change(&mut store, "a".to_string(), 3);
    let loaded = read_snapshot(Some(snapshot));
    assert_eq!(loaded.version, VersionCheck::Current);
    let mut restarted = ClipboardBuffer::new(3);
    restarted.load_entries(&loaded.entries);
    let texts: Vec<(String, u64)> = restarted.entries_vec().into_iter().map(|e| (e.text, e.timestamp)).collect();
    assert_eq!(texts, vec![("a".to_string(), 3), ("b".to_string(), 2)]);
}
