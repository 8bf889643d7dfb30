//! Change detection for a clipboard that can only be polled: each tick
//! reports a text at most once, and only when it differs from the last one
//! seen.
use vstd::prelude::*;

verus! {

/// One tick of change detection. `last` is the text seen last (`None` before
/// any), `read` what this tick read (`None` when the read failed). Gives the
/// text seen last after the tick and the change to report, if any.
pub open spec fn tick(last: Option<Seq<char>>, read: Option<Seq<char>>) -> (Option<Seq<char>>, Option<Seq<char>>) {
    match read {
        None => (last, None),
        Some(t) => if last == Some(t) {
            (last, None)
        } else {
            (Some(t), Some(t))
        },
    }
}

/// The view of an optional string.
pub open spec fn text_of(s: Option<String>) -> Option<Seq<char>> {
    match s {
        Some(t) => Some(t@),
        None => None,
    }
}

/// Remembers the last clipboard text seen, so that each change is reported
/// once.
#[derive(Debug)]
pub struct ChangeDetector {
    last_value: Option<String>,
}

impl View for ChangeDetector {
    type V = Option<Seq<char>>;

    closed spec fn view(&self) -> Option<Seq<char>> {
        text_of(self.last_value)
    }
}

impl ChangeDetector {
    /// A detector that has seen nothing yet.
    pub fn new() -> (r: Self)
        ensures
            r@ == None::<Seq<char>>,
    {
        ChangeDetector { last_value: None }
    }

    /// Takes what one tick read (`None` when the read failed) and gives the
    /// text to report as a change, if any: a successful read that differs
    /// from the last text seen is reported and remembered; anything else
    /// changes nothing.
    pub fn observe(&mut self, read: Option<String>) -> (r: Option<String>)
        ensures
            (final(self)@, text_of(r)) == tick(old(self)@, text_of(read)),
    {
        match read {
            None => None,
            Some(text) => {
                let unchanged = match &self.last_value {
                    Some(prev) => *prev == text,
                    None => false,
                };
                if unchanged {
                    None
                } else {
                    self.last_value = Some(text.clone());
                    Some(text)
                }
            },
        }
    }
}

} // verus!
