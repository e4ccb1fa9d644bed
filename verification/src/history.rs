//! Bounded command history, most-recent-first, together with the browse
//! state: how deep an Up-arrow traversal has gone and the preserved copy of
//! the typing that was on the line when browsing started.

use vstd::prelude::*;

verus! {

/// Mathematical view of a [`HistoryStore`].
#[verifier::ext_equal]
pub ghost struct HistoryModel {
    /// Past submitted lines, most recent first.
    pub entries: Seq<Seq<char>>,
    /// Capacity: the store never holds more than this many entries.
    pub cap: nat,
    /// How many steps back an Up-arrow traversal has gone (0 = at the line
    /// being typed).
    pub depth: nat,
    /// Whether a browse session is active.
    pub browsing: bool,
    /// The in-progress typing, preserved while a browse session is active.
    pub preserved: Seq<char>,
}

impl HistoryModel {
    pub open spec fn wf(self) -> bool {
        &&& 1 <= self.cap
        &&& self.entries.len() <= self.cap
        &&& self.depth <= self.entries.len()
        &&& (forall|i: int| 0 <= i < self.entries.len() ==> (#[trigger] self.entries[i]).len() >= 1)
        &&& (!self.browsing ==> self.depth == 0 && self.preserved == Seq::<char>::empty())
    }

    /// Effect of [`HistoryStore::push`]: the line becomes the most recent
    /// entry; a store at capacity drops its oldest entry first.
    pub open spec fn push_model(self, line: Seq<char>) -> HistoryModel {
        if self.entries.len() == self.cap {
            HistoryModel { entries: seq![line] + self.entries.drop_last(), ..self }
        } else {
            HistoryModel { entries: seq![line] + self.entries, ..self }
        }
    }

    /// Effect of [`HistoryStore::begin_browse`]: the current typing is
    /// preserved and traversal starts at the most recent entry.
    pub open spec fn begin_model(self, snapshot: Seq<char>) -> HistoryModel {
        HistoryModel { depth: 0, browsing: true, preserved: snapshot, ..self }
    }

    /// Effect of [`HistoryStore::advance`]: one step deeper into the past.
    pub open spec fn advance_model(self) -> HistoryModel {
        HistoryModel { depth: self.depth + 1, ..self }
    }

    /// Effect of [`HistoryStore::retreat`]: one step back towards the
    /// present.
    pub open spec fn retreat_model(self) -> HistoryModel
        recommends
            self.depth >= 1,
    {
        HistoryModel { depth: (self.depth - 1) as nat, ..self }
    }

    /// Effect of [`HistoryStore::reset_browse`]: the browse session ends and
    /// the preservation slot is consumed; the entries keep their
    /// chronological order.
    pub open spec fn reset_model(self) -> HistoryModel {
        HistoryModel { depth: 0, browsing: false, preserved: Seq::<char>::empty(), ..self }
    }
}

/// A sequence of lines pushed in order into a store.
pub open spec fn push_all(h: HistoryModel, lines: Seq<Seq<char>>) -> HistoryModel
    decreases lines.len(),
{
    if lines.len() == 0 {
        h
    } else {
        push_all(h.push_model(lines[0]), lines.drop_first())
    }
}

/// Pushing `n` lines into a history of capacity `cap` retains exactly the
/// `min(n, cap)` most recent lines in submission order, most recent first;
/// the oldest lines beyond the capacity are evicted.
pub proof fn lemma_push_retains_most_recent(h: HistoryModel, lines: Seq<Seq<char>>)
    requires
        h.entries.len() == 0,
        1 <= h.cap,
    ensures
        push_all(h, lines).entries.len() == if lines.len() <= h.cap {
            lines.len() as int
        } else {
            h.cap as int
        },
        forall|i: int|
            0 <= i < push_all(h, lines).entries.len() ==> push_all(h, lines).entries[i]
                == lines[lines.len() - 1 - i],
    decreases lines.len(),
{
    if lines.len() == 0 {
    } else {
        lemma_push_suffix(h.push_model(lines[0]), lines.drop_first());
    }
}

/// Helper for [`lemma_push_retains_most_recent`]: from any starting store,
/// after pushing `lines` in order, the newest entries are the pushed lines
/// (most recent first) and any remaining slots hold what survived from the
/// start, shifted back.
proof fn lemma_push_suffix(h: HistoryModel, lines: Seq<Seq<char>>)
    requires
        h.entries.len() <= h.cap,
        1 <= h.cap,
    ensures
        push_all(h, lines).cap == h.cap,
        push_all(h, lines).entries.len() == if lines.len() + h.entries.len() <= h.cap {
            lines.len() + h.entries.len()
        } else {
            h.cap
        },
        forall|i: int|
            0 <= i < push_all(h, lines).entries.len() ==> push_all(h, lines).entries[i] == (if i
                < lines.len() {
                lines[lines.len() - 1 - i]
            } else {
                h.entries[i - lines.len()]
            }),
    decreases lines.len(),
{
    if lines.len() == 0 {
    } else {
        let h1 = h.push_model(lines[0]);
        assert(h1.entries.len() <= h1.cap);
        lemma_push_suffix(h1, lines.drop_first());
        assert forall|i: int| 0 <= i < push_all(h, lines).entries.len() implies push_all(
            h,
            lines,
        ).entries[i] == (if i < lines.len() {
            lines[lines.len() - 1 - i]
        } else {
            h.entries[i - lines.len()]
        }) by {
            assert(push_all(h, lines) == push_all(h1, lines.drop_first()));
            if i >= lines.len() - 1 {
                assert(h1.entries[i - (lines.len() - 1)] == (if h.entries.len() == h.cap {
                    (seq![lines[0]] + h.entries.drop_last())[i - (lines.len() - 1)]
                } else {
                    (seq![lines[0]] + h.entries)[i - (lines.len() - 1)]
                }));
            }
        }
    }
}

/// Bounded, insertion-ordered store of past command lines (most recent
/// first) plus the transient browse state and the preserved-typing slot.
pub struct HistoryStore {
    entries: Vec<String>,
    cap: usize,
    depth: usize,
    browsing: bool,
    preserved: String,
}

impl View for HistoryStore {
    type V = HistoryModel;

    closed spec fn view(&self) -> HistoryModel {
        HistoryModel {
            entries: Seq::new(self.entries@.len(), |i: int| self.entries@[i]@),
            cap: self.cap as nat,
            depth: self.depth as nat,
            browsing: self.browsing,
            preserved: self.preserved@,
        }
    }
}

impl HistoryStore {
    pub open spec fn wf(&self) -> bool {
        self@.wf()
    }

    /// An empty history that will retain at most `capacity` lines.
    pub fn new(capacity: usize) -> (r: HistoryStore)
        requires
            1 <= capacity,
        ensures
            r@ == (HistoryModel {
                entries: Seq::<Seq<char>>::empty(),
                cap: capacity as nat,
                depth: 0 as nat,
                browsing: false,
                preserved: Seq::<char>::empty(),
            }),
            r.wf(),
    {
        let r = HistoryStore {
            entries: Vec::new(),
            cap: capacity,
            depth: 0,
            browsing: false,
            preserved: String::new(),
        };
        proof {
            assert(r@.entries =~= Seq::<Seq<char>>::empty());
            assert(r@ =~= (HistoryModel {
                entries: Seq::<Seq<char>>::empty(),
                cap: capacity as nat,
                depth: 0 as nat,
                browsing: false,
                preserved: Seq::<char>::empty(),
            }));
        }
        r
    }

    pub fn len(&self) -> (n: usize)
        ensures
            n == self@.entries.len(),
    {
        self.entries.len()
    }

    pub fn depth(&self) -> (d: usize)
        ensures
            d == self@.depth,
    {
        self.depth
    }

    pub fn is_browsing(&self) -> (b: bool)
        ensures
            b == self@.browsing,
    {
        self.browsing
    }

    /// The entry `i` steps back from the most recent one.
    pub fn entry_at(&self, i: usize) -> (r: String)
        requires
            i < self@.entries.len(),
        ensures
            r@ == self@.entries[i as int],
    {
        self.entries[i].clone()
    }

    /// The preserved in-progress typing.
    pub fn preserved_text(&self) -> (r: String)
        ensures
            r@ == self@.preserved,
    {
        self.preserved.clone()
    }

    /// Records a submitted line as the most recent entry, evicting the
    /// oldest entry if the store is at capacity.
    pub fn push(&mut self, line: String)
        requires
            old(self).wf(),
            line@.len() >= 1,
        ensures
            final(self)@ == old(self)@.push_model(line@),
            final(self).wf(),
    {
        if self.entries.len() == self.cap {
            self.entries.pop();
            proof {
                assert(self@.entries =~= old(self)@.entries.drop_last());
            }
        }
        self.entries.insert(0, line);
        proof {
            if old(self).entries@.len() == old(self).cap {
                assert(self@.entries =~= seq![line@] + old(self)@.entries.drop_last());
            } else {
                assert(self@.entries =~= seq![line@] + old(self)@.entries);
            }
            assert(self@ =~= old(self)@.push_model(line@));
        }
    }

    /// Starts a browse session: preserves the current typing and puts the
    /// traversal at the most recent entry.
    pub fn begin_browse(&mut self, snapshot: String)
        requires
            old(self).wf(),
            !old(self)@.browsing,
        ensures
            final(self)@ == old(self)@.begin_model(snapshot@),
            final(self).wf(),
    {
        self.browsing = true;
        self.depth = 0;
        self.preserved = snapshot;
        proof {
            assert(self@ =~= old(self)@.begin_model(self.preserved@));
        }
    }

    /// One step deeper into the past.
    pub fn advance(&mut self)
        requires
            old(self).wf(),
            old(self)@.browsing,
            old(self)@.depth < old(self)@.entries.len(),
        ensures
            final(self)@ == old(self)@.advance_model(),
            final(self).wf(),
    {
        self.depth = self.depth + 1;
        proof {
            assert(self@ =~= old(self)@.advance_model());
        }
    }

    /// One step back towards the present.
    pub fn retreat(&mut self)
        requires
            old(self).wf(),
            old(self)@.depth >= 1,
        ensures
            final(self)@ == old(self)@.retreat_model(),
            final(self).wf(),
    {
        self.depth = self.depth - 1;
        proof {
            assert(self@ =~= old(self)@.retreat_model());
        }
    }

    /// Ends the browse session and consumes the preservation slot. The
    /// entries were never reordered by browsing, so chronological order
    /// needs no further normalization.
    pub fn reset_browse(&mut self)
        requires
            old(self).wf(),
        ensures
            final(self)@ == old(self)@.reset_model(),
            final(self).wf(),
    {
        self.depth = 0;
        self.browsing = false;
        self.preserved = String::new();
        proof {
            assert(self@ =~= old(self)@.reset_model());
        }
    }
}

} // verus!
