//! One captured clipboard text together with the time it was captured.
use vstd::prelude::*;

verus! {

/// A captured clipboard text and its capture time, in whole seconds since
/// the Unix epoch. Two entries stand for the same clipboard content exactly
/// when their texts are equal; the timestamp plays no part in that.
#[derive(Debug)]
pub struct ClipboardEntry {
    pub text: String,
    pub timestamp: u64,
}

impl ClipboardEntry {
    /// Builds an entry from its text and its capture time in seconds.
    pub fn new(text: String, timestamp: u64) -> (r: Self)
        ensures
            r == (ClipboardEntry { text, timestamp }),
    {
        ClipboardEntry { text, timestamp }
    }
}

impl Clone for ClipboardEntry {
    fn clone(&self) -> (r: Self)
        ensures
            r == *self,
    {
        ClipboardEntry { text: self.text.clone(), timestamp: self.timestamp }
    }
}

} // verus!
