//! The step taken on each reported clipboard change: record it in the
//! history and produce the snapshot to write.
use vstd::prelude::*;
use crate::entry::ClipboardEntry;
use crate::history::{after_push, ClipboardBuffer};
use crate::persistence::{snapshot_of, written, Snapshot};

verus! {

/// Records `text`, captured at `timestamp` (seconds since the Unix epoch),
/// as the most recent entry of `store`, and gives the snapshot of the whole
/// history that is to be written next.
pub fn accept_change(store: &mut ClipboardBuffer, text: String, timestamp: u64) -> (r: Snapshot)
    requires
        old(store).wf(),
    ensures
        final(store).wf(),
        final(store).capacity() == old(store).capacity(),
        final(store)@ == after_push(
            old(store)@,
            (ClipboardEntry { text, timestamp }),
            old(store).capacity(),
        ),
        (r.version, r.entries@) == written(final(store)@),
{
    let entry = ClipboardEntry::new(text, timestamp);
    store.push(entry);
    snapshot_of(store.entries_vec())
}

} // verus!
