use clipboard_history::entry::ClipboardEntry;
use clipboard_history::history::ClipboardBuffer;
use clipboard_history::persistence::{read_snapshot, snapshot_of, Snapshot, VersionCheck, CURRENT_VERSION};

fn entry(text: &str, timestamp: u64) -> ClipboardEntry {
    ClipboardEntry::new(text.to_string(), timestamp)
}

#[test]
fn written_snapshot_carries_current_version() {
    let snapshot = snapshot_of(vec![entry("Hello", 5), entry("World", 4)]);
    assert_eq!(snapshot.version, CURRENT_VERSION);
    assert_eq!(CURRENT_VERSION, 1);
    assert_eq!(snapshot.entries.len(), 2);
    assert_eq!(snapshot.entries[0].text, "Hello");
    assert_eq!(snapshot.entries[1].text, "World");
}

#[test]
fn snapshot_round_trip_restores_history() {
    let mut buffer = ClipboardBuffer::new(3);
    for (i, t) in ["a", "b", "c"].iter().enumerate() {
        buffer.push(entry(t, i as u64 + 100));
    }
    let loaded = read_snapshot(Some(snapshot_of(buffer.entries_vec())));
    assert_eq!(loaded.version, VersionCheck::Current);
    let mut restored = ClipboardBuffer::new(3);
    restored.load_entries(&loaded.entries);
    let before: Vec<(String, u64)> = buffer.entries_vec().into_iter().map(|e| (e.text, e.timestamp)).collect();
    let after: Vec<(String, u64)> = restored.entries_vec().into_iter().map(|e| (e.text, e.timestamp)).collect();
    assert_eq!(before, after);
    assert_eq!(after[0], ("c".to_string(), 102));
}

#[test]
fn missing_snapshot_reads_as_empty() {
    let loaded = read_snapshot(None);
    assert!(loaded.entries.is_empty());
    assert_eq!(loaded.version, VersionCheck::Current);
}

#[test]
fn other_version_is_read_with_warning() {
    let found = Snapshot { version: 2, entries: vec![entry("kept", 9)] };
    let loaded = read_snapshot(Some(found));
    assert_eq!(loaded.version, VersionCheck::Mismatch(2));
    assert_eq!(loaded.entries.len(), 1);
    assert_eq!(loaded.entries[0].text, "kept");
    assert_eq!(loaded.entries[0].timestamp, 9);
}
