//! The history store: a bounded, most-recent-first sequence of entries in
//! which no two entries share a text.
use vstd::prelude::*;
use std::collections::VecDeque;
use crate::entry::ClipboardEntry;

verus! {

/// No two positions of `s` hold equal texts.
pub open spec fn unique_texts(s: Seq<ClipboardEntry>) -> bool {
    forall|i: int, j: int|
        0 <= i < s.len() && 0 <= j < s.len() && i != j ==> #[trigger] s[i].text@ != #[trigger] s[j].text@
}

/// Some position of `s` holds the text `t`.
pub open spec fn holds_text(s: Seq<ClipboardEntry>, t: Seq<char>) -> bool {
    exists|i: int| 0 <= i < s.len() && #[trigger] s[i].text@ == t
}

/// `s` with the entry whose text is `t` taken out, if there is one.
pub open spec fn without_text(s: Seq<ClipboardEntry>, t: Seq<char>) -> Seq<ClipboardEntry> {
    if holds_text(s, t) {
        s.remove(choose|i: int| 0 <= i < s.len() && #[trigger] s[i].text@ == t)
    } else {
        s
    }
}

/// The history after pushing `e` onto `s` with room for `cap` entries: an
/// entry with the same text leaves its place, `e` goes to the front, and
/// the entry at the back leaves when the history would overflow.
pub open spec fn after_push(s: Seq<ClipboardEntry>, e: ClipboardEntry, cap: nat) -> Seq<ClipboardEntry> {
    let front = seq![e] + without_text(s, e.text@);
    if front.len() > cap {
        front.drop_last()
    } else {
        front
    }
}

/// The history after pushing each entry of `es` in turn onto `s`.
pub open spec fn after_pushes(s: Seq<ClipboardEntry>, es: Seq<ClipboardEntry>, cap: nat) -> Seq<ClipboardEntry>
    decreases es.len(),
{
    if es.len() == 0 {
        s
    } else {
        after_push(after_pushes(s, es.drop_last(), cap), es.last(), cap)
    }
}

/// The history restored from the stored sequence `es`: entries are taken
/// in order, skipping any whose text is already held, while there is room.
pub open spec fn restored(es: Seq<ClipboardEntry>, cap: nat) -> Seq<ClipboardEntry>
    decreases es.len(),
{
    if es.len() == 0 {
        Seq::empty()
    } else {
        let r = restored(es.drop_last(), cap);
        if r.len() < cap && !holds_text(r, es.last().text@) {
            r.push(es.last())
        } else {
            r
        }
    }
}

/// What taking out the entry with text `t` does to a history with distinct
/// texts: the texts stay distinct, `t` is gone, and exactly one entry left
/// when one held `t`.
pub proof fn lemma_without_text(s: Seq<ClipboardEntry>, t: Seq<char>)
    requires
        unique_texts(s),
    ensures
        unique_texts(without_text(s, t)),
        !holds_text(without_text(s, t), t),
        holds_text(s, t) ==> without_text(s, t).len() == s.len() - 1,
        !holds_text(s, t) ==> without_text(s, t) == s,
{
    if holds_text(s, t) {
        let k = choose|i: int| 0 <= i < s.len() && #[trigger] s[i].text@ == t;
        let w = s.remove(k);
        assert forall|i: int| 0 <= i < w.len() implies #[trigger] w[i] == (if i < k { s[i] } else { s[i + 1] }) by {}
        assert forall|i: int, j: int|
            0 <= i < w.len() && 0 <= j < w.len() && i != j implies #[trigger] w[i].text@ != #[trigger] w[j].text@ by {
            let si = if i < k { i } else { i + 1 };
            let sj = if j < k { j } else { j + 1 };
            assert(s[si].text@ != s[sj].text@);
        }
        if holds_text(w, t) {
            let m = choose|i: int| 0 <= i < w.len() && #[trigger] w[i].text@ == t;
            let sm = if m < k { m } else { m + 1 };
            assert(s[sm].text@ == t);
            assert(s[k].text@ == t);
        }
    }
}

/// One push keeps a history within its capacity and its texts distinct.
pub proof fn lemma_push_keeps_invariant(s: Seq<ClipboardEntry>, e: ClipboardEntry, cap: nat)
    requires
        s.len() <= cap,
        unique_texts(s),
    ensures
        after_push(s, e, cap).len() <= cap,
        unique_texts(after_push(s, e, cap)),
        after_push(s, e, cap).len() > 0 ==> after_push(s, e, cap)[0] == e,
{
    lemma_without_text(s, e.text@);
    let w = without_text(s, e.text@);
    let front = seq![e] + w;
    assert forall|i: int| 0 <= i < w.len() implies #[trigger] front[i + 1] == w[i] by {}
    assert forall|i: int, j: int|
        0 <= i < front.len() && 0 <= j < front.len() && i != j implies #[trigger] front[i].text@ != #[trigger] front[j].text@ by {
        if i == 0 {
            assert(front[j] == w[j - 1]);
        } else if j == 0 {
            assert(front[i] == w[i - 1]);
        } else {
            assert(front[i] == w[i - 1]);
            assert(front[j] == w[j - 1]);
        }
    }
    if front.len() > cap {
        let d = front.drop_last();
        assert forall|i: int, j: int|
            0 <= i < d.len() && 0 <= j < d.len() && i != j implies #[trigger] d[i].text@ != #[trigger] d[j].text@ by {
            assert(d[i] == front[i]);
            assert(d[j] == front[j]);
        }
    }
}

/// Any sequence of pushes keeps a history within its capacity and its
/// texts distinct.
pub proof fn lemma_pushes_keep_invariant(s: Seq<ClipboardEntry>, es: Seq<ClipboardEntry>, cap: nat)
    requires
        s.len() <= cap,
        unique_texts(s),
    ensures
        after_pushes(s, es, cap).len() <= cap,
        unique_texts(after_pushes(s, es, cap)),
    decreases es.len(),
{
    if es.len() > 0 {
        lemma_pushes_keep_invariant(s, es.drop_last(), cap);
        lemma_push_keeps_invariant(after_pushes(s, es.drop_last(), cap), es.last(), cap);
    }
}

/// Pushing a text that the history already holds brings that text to the
/// front and leaves the number of entries as it was.
pub proof fn lemma_push_held_text_moves_to_front(s: Seq<ClipboardEntry>, e: ClipboardEntry, cap: nat)
    requires
        s.len() <= cap,
        unique_texts(s),
        holds_text(s, e.text@),
    ensures
        after_push(s, e, cap).len() == s.len(),
        after_push(s, e, cap)[0] == e,
{
    lemma_without_text(s, e.text@);
    lemma_push_keeps_invariant(s, e, cap);
}

/// Pushing distinct texts onto an empty history keeps the most recent
/// ones, newest first, up to the capacity: the oldest leave first.
pub proof fn lemma_distinct_pushes_keep_most_recent(es: Seq<ClipboardEntry>, cap: nat)
    requires
        unique_texts(es),
    ensures
        after_pushes(Seq::empty(), es, cap).len() == if es.len() < cap { es.len() } else { cap },
        forall|k: int|
            0 <= k < after_pushes(Seq::empty(), es, cap).len() ==> #[trigger] after_pushes(Seq::empty(), es, cap)[k]
                == es[es.len() - 1 - k],
        es.len() == cap + 1 ==> !holds_text(after_pushes(Seq::empty(), es, cap), es[0].text@),
    decreases es.len(),
{
    let r = after_pushes(Seq::empty(), es, cap);
    if es.len() > 0 {
        let n = es.len() as int;
        let d = es.drop_last();
        assert forall|i: int, j: int|
            0 <= i < d.len() && 0 <= j < d.len() && i != j implies #[trigger] d[i].text@ != #[trigger] d[j].text@ by {
            assert(d[i] == es[i] && d[j] == es[j]);
        }
        lemma_distinct_pushes_keep_most_recent(d, cap);
        lemma_pushes_keep_invariant(Seq::empty(), d, cap);
        let prev = after_pushes(Seq::empty(), d, cap);
        let e = es.last();
        if holds_text(prev, e.text@) {
            let m = choose|i: int| 0 <= i < prev.len() && #[trigger] prev[i].text@ == e.text@;
            assert(prev[m] == es[n - 2 - m]);
            assert(es[n - 1].text@ != es[n - 2 - m].text@);
        }
        lemma_without_text(prev, e.text@);
        let front = seq![e] + prev;
        assert(r == if front.len() > cap { front.drop_last() } else { front });
        assert forall|k: int| 0 <= k < r.len() implies #[trigger] r[k] == es[n - 1 - k] by {
            assert(r[k] == front[k]);
            if k > 0 {
                assert(front[k] == prev[k - 1]);
            }
        }
        if es.len() == cap + 1 {
            if holds_text(r, es[0].text@) {
                let m = choose|i: int| 0 <= i < r.len() && #[trigger] r[i].text@ == es[0].text@;
                assert(r[m] == es[n - 1 - m]);
                assert(es[0].text@ != es[n - 1 - m].text@);
            }
        }
    }
}

/// Restoring keeps at most `cap` entries, with distinct texts.
pub proof fn lemma_restored_invariant(es: Seq<ClipboardEntry>, cap: nat)
    ensures
        restored(es, cap).len() <= cap,
        unique_texts(restored(es, cap)),
    decreases es.len(),
{
    if es.len() > 0 {
        lemma_restored_invariant(es.drop_last(), cap);
        let r = restored(es.drop_last(), cap);
        let e = es.last();
        if r.len() < cap && !holds_text(r, e.text@) {
            let p = r.push(e);
            assert forall|i: int, j: int|
                0 <= i < p.len() && 0 <= j < p.len() && i != j implies #[trigger] p[i].text@ != #[trigger] p[j].text@ by {
                if i < r.len() && j < r.len() {
                    assert(p[i] == r[i] && p[j] == r[j]);
                } else if i < r.len() {
                    assert(p[i] == r[i]);
                } else {
                    assert(p[j] == r[j]);
                }
            }
        }
    }
}

/// A stored sequence with distinct texts is restored as it was, cut to
/// the capacity.
pub proof fn lemma_restore_distinct(es: Seq<ClipboardEntry>, cap: nat)
    requires
        unique_texts(es),
    ensures
        restored(es, cap) == es.subrange(0, if es.len() < cap { es.len() as int } else { cap as int }),
    decreases es.len(),
{
    if es.len() > 0 {
        let n = es.len() as int;
        let d = es.drop_last();
        assert forall|i: int, j: int|
            0 <= i < d.len() && 0 <= j < d.len() && i != j implies #[trigger] d[i].text@ != #[trigger] d[j].text@ by {
            assert(d[i] == es[i] && d[j] == es[j]);
        }
        lemma_restore_distinct(d, cap);
        let r = restored(d, cap);
        if r.len() < cap && holds_text(r, es.last().text@) {
            let m = choose|i: int| 0 <= i < r.len() && #[trigger] r[i].text@ == es.last().text@;
            assert(r[m] == es[m]);
        }
        if n - 1 < cap {
            assert(r.push(es.last()) =~= es.subrange(0, n));
        } else {
            assert(r =~= es.subrange(0, cap as int));
        }
    }
}

/// Bounded clipboard history, most recent entry first.
pub struct ClipboardBuffer {
    max_entries: usize,
    entries: VecDeque<ClipboardEntry>,
}

impl View for ClipboardBuffer {
    type V = Seq<ClipboardEntry>;

    closed spec fn view(&self) -> Seq<ClipboardEntry> {
        self.entries@
    }
}

impl ClipboardBuffer {
    /// The largest number of entries the history keeps.
    pub closed spec fn capacity(&self) -> nat {
        self.max_entries as nat
    }

    /// The history holds at most `capacity` entries, with distinct texts.
    pub open spec fn wf(&self) -> bool {
        &&& self@.len() <= self.capacity()
        &&& unique_texts(self@)
    }

    /// An empty history with room for `max_entries` entries.
    pub fn new(max_entries: usize) -> (r: Self)
        ensures
            r.wf(),
            r@ == Seq::<ClipboardEntry>::empty(),
            r.capacity() == max_entries,
    {
        ClipboardBuffer { max_entries, entries: VecDeque::with_capacity(max_entries) }
    }

    /// The position of the entry whose text is `text`, if one is held.
    fn position_of(&self, text: &String) -> (r: Option<usize>)
        ensures
            match r {
                Some(i) => i < self@.len() && self@[i as int].text@ == text@,
                None => !holds_text(self@, text@),
            },
    {
        let mut i: usize = 0;
        while i < self.entries.len()
            invariant
                i <= self@.len(),
                forall|j: int| 0 <= j < i ==> #[trigger] self@[j].text@ != text@,
            decreases self@.len() - i,
        {
            if self.entries[i].text == *text {
                return Some(i);
            }
            i += 1;
        }
        None
    }

    /// Records `entry` as the most recent one. An entry with the same text
    /// is taken out first, wherever it stands; when the history then holds
    /// more than its capacity, the oldest entry leaves.
    pub fn push(&mut self, entry: ClipboardEntry)
        requires
            old(self).wf(),
        ensures
            final(self).wf(),
            final(self).capacity() == old(self).capacity(),
            final(self)@ == after_push(old(self)@, entry, old(self).capacity()),
    {
        let ghost s = self@;
        proof {
            lemma_push_keeps_invariant(s, entry, self.capacity());
        }
        match self.position_of(&entry.text) {
            Some(pos) => {
                proof {
                    let k = choose|i: int| 0 <= i < s.len() && #[trigger] s[i].text@ == entry.text@;
                    assert(k == pos as int);
                }
                self.entries.remove(pos);
            },
            None => {},
        }
        self.entries.push_front(entry);
        if self.entries.len() > self.max_entries {
            self.entries.pop_back();
        }
    }

    /// The largest number of entries the history keeps.
    pub fn max_entries(&self) -> (r: usize)
        ensures
            r == self.capacity(),
    {
        self.max_entries
    }

    /// The entries, most recent first, without changing the history.
    pub fn entries(&self) -> (r: &VecDeque<ClipboardEntry>)
        ensures
            r@ == self@,
    {
        &self.entries
    }

    /// A copy of all entries, most recent first.
    pub fn entries_vec(&self) -> (r: Vec<ClipboardEntry>)
        ensures
            r@ == self@,
    {
        let mut out: Vec<ClipboardEntry> = Vec::new();
        let mut i: usize = 0;
        while i < self.entries.len()
            invariant
                i <= self@.len(),
                out@ == self@.subrange(0, i as int),
            decreases self@.len() - i,
        {
            out.push(self.entries[i].clone());
            i += 1;
            assert(out@ =~= self@.subrange(0, i as int));
        }
        assert(out@ =~= self@);
        out
    }

    /// The entry at recency index `index` (0 is the most recent), if any.
    pub fn get(&self, index: usize) -> (r: Option<&ClipboardEntry>)
        ensures
            match r {
                Some(e) => index < self@.len() && *e == self@[index as int],
                None => index >= self@.len(),
            },
    {
        if index < self.entries.len() {
            Some(&self.entries[index])
        } else {
            None
        }
    }

    /// The number of entries held.
    pub fn len(&self) -> (r: usize)
        ensures
            r == self@.len(),
    {
        self.entries.len()
    }

    /// True when no entry is held.
    pub fn is_empty(&self) -> (r: bool)
        ensures
            r == (self@.len() == 0),
    {
        self.entries.len() == 0
    }

    /// Replaces the history by the stored sequence `loaded`, kept in order
    /// and cut to the capacity; an entry whose text is already taken is
    /// skipped.
    pub fn load_entries(&mut self, loaded: &Vec<ClipboardEntry>)
        ensures
            final(self).wf(),
            final(self).capacity() == old(self).capacity(),
            final(self)@ == restored(loaded@, old(self).capacity()),
    {
        self.entries.clear();
        let ghost cap = self.capacity();
        let mut i: usize = 0;
        while i < loaded.len()
            invariant
                i <= loaded@.len(),
                self.capacity() == cap,
                self@ == restored(loaded@.subrange(0, i as int), cap),
            decreases loaded@.len() - i,
        {
            let ghost before = loaded@.subrange(0, i as int);
            assert(loaded@.subrange(0, i as int + 1).drop_last() =~= before);
            let e = &loaded[i];
            if self.entries.len() < self.max_entries {
                match self.position_of(&e.text) {
                    None => {
                        self.entries.push_back(e.clone());
                    },
                    Some(_) => {},
                }
            }
            i += 1;
        }
        assert(loaded@.subrange(0, loaded@.len() as int) =~= loaded@);
        proof {
            lemma_restored_invariant(loaded@, cap);
        }
    }
}

} // verus!
