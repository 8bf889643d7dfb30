//! The durable snapshot of a history: a format version and the entries,
//! most recent first. Turning a snapshot into bytes and back is left to the
//! caller; this module frames the entries and judges what was read back.
use vstd::prelude::*;
use crate::entry::ClipboardEntry;
use crate::history::{lemma_restore_distinct, restored, unique_texts};

verus! {

/// The snapshot format version that this library writes.
pub const CURRENT_VERSION: u32 = 1;

/// The contents of a snapshot file.
#[derive(Debug)]
pub struct Snapshot {
    pub version: u32,
    pub entries: Vec<ClipboardEntry>,
}

/// How the version of a snapshot that was read compares with the current one.
#[derive(Debug, Clone, Copy, PartialEq, Eq, Structural)]
pub enum VersionCheck {
    Current,
    /// The snapshot was written in another format version, given here. Its
    /// entries are still used as they stand; the caller is told so that it
    /// can warn.
    Mismatch(u32),
}

/// The entries read from a snapshot, with the outcome of its version check.
#[derive(Debug)]
pub struct LoadedHistory {
    pub entries: Vec<ClipboardEntry>,
    pub version: VersionCheck,
}

/// The version check of a snapshot stored with format version `v`.
pub open spec fn version_check(v: u32) -> VersionCheck {
    if v == CURRENT_VERSION {
        VersionCheck::Current
    } else {
        VersionCheck::Mismatch(v)
    }
}

/// The version and entries that writing `es` stores.
pub open spec fn written(es: Seq<ClipboardEntry>) -> (u32, Seq<ClipboardEntry>) {
    (CURRENT_VERSION, es)
}

/// The entries and version check obtained from what was stored, where
/// `None` means that no snapshot exists yet.
pub open spec fn read_back(stored: Option<(u32, Seq<ClipboardEntry>)>) -> (Seq<ClipboardEntry>, VersionCheck) {
    match stored {
        None => (Seq::empty(), VersionCheck::Current),
        Some((v, es)) => (es, version_check(v)),
    }
}

/// The snapshot to store for `entries`, given in the order of the history.
pub fn snapshot_of(entries: Vec<ClipboardEntry>) -> (r: Snapshot)
    ensures
        (r.version, r.entries@) == written(entries@),
{
    Snapshot { version: CURRENT_VERSION, entries }
}

/// What a history starts from, given the snapshot that was found, or `None`
/// when there is none yet (which is no error: nothing was saved so far).
pub fn read_snapshot(found: Option<Snapshot>) -> (r: LoadedHistory)
    ensures
        (r.entries@, r.version) == read_back(
            match found {
                Some(s) => Some((s.version, s.entries@)),
                None => None,
            },
        ),
{
    match found {
        None => LoadedHistory { entries: Vec::new(), version: VersionCheck::Current },
        Some(s) => {
            let version = if s.version == CURRENT_VERSION {
                VersionCheck::Current
            } else {
                VersionCheck::Mismatch(s.version)
            };
            LoadedHistory { entries: s.entries, version }
        },
    }
}

/// Reading back what was written gives the same entries in the same order,
/// with no version warning; restoring them into a history with room for
/// them gives back that history, whenever its texts were distinct.
pub proof fn lemma_snapshot_round_trip(es: Seq<ClipboardEntry>, cap: nat)
    ensures
        read_back(Some(written(es))) == (es, VersionCheck::Current),
        unique_texts(es) && es.len() <= cap ==> restored(read_back(Some(written(es))).0, cap) == es,
{
    if unique_texts(es) && es.len() <= cap {
        lemma_restore_distinct(es, cap);
        assert(es.subrange(0, es.len() as int) =~= es);
    }
}

} // verus!
