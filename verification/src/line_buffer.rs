//! The editable command line: a capacity-bounded sequence of characters
//! together with the insertion point.

use vstd::prelude::*;

use crate::text::{chars_to_string, string_to_chars};

verus! {

/// Mathematical view of a [`LineBuffer`]: the characters typed so far, the
/// cursor (insertion point), and the capacity of the underlying storage.
#[verifier::ext_equal]
pub ghost struct LineModel {
    pub chars: Seq<char>,
    pub cursor: nat,
    pub cap: nat,
}

impl LineModel {
    /// One storage slot is reserved as an implicit terminator, so the text
    /// never fills the whole capacity.
    pub open spec fn wf(self) -> bool {
        &&& 1 <= self.cap
        &&& self.chars.len() < self.cap
        &&& self.cursor <= self.chars.len()
    }

    /// The buffer accepts no further characters.
    pub open spec fn full(self) -> bool {
        self.chars.len() == self.cap - 1
    }

    /// Effect of [`LineBuffer::insert`]: a full buffer silently rejects the
    /// character (bounded-input policy, not a failure); otherwise it is
    /// spliced in at the cursor and the cursor moves past it.
    pub open spec fn insert_model(self, c: char) -> LineModel {
        if self.full() {
            self
        } else {
            LineModel {
                chars: self.chars.insert(self.cursor as int, c),
                cursor: self.cursor + 1,
                ..self
            }
        }
    }

    /// Effect of [`LineBuffer::remove`]: the character in front of one-based
    /// position `pos` goes away; backspace semantics (`cursor_fixed ==
    /// false`) pull the cursor one step left, and the cursor is clamped to
    /// the new length either way.
    pub open spec fn remove_model(self, pos: int, cursor_fixed: bool) -> LineModel
        recommends
            1 <= pos <= self.chars.len(),
    {
        let shorter = self.chars.remove(pos - 1);
        let moved: int = if cursor_fixed {
            self.cursor as int
        } else if self.cursor >= 1 {
            self.cursor - 1
        } else {
            0
        };
        let clamped: int = if moved > shorter.len() {
            shorter.len() as int
        } else {
            moved
        };
        LineModel { chars: shorter, cursor: clamped as nat, ..self }
    }
}

/// A guarded editing operation, as issued by the editor: inserts follow the
/// bounded-input policy, and removes are only issued with a position in
/// range (and, for backspace, a cursor that can move left); an unguarded
/// remove is modelled as leaving the buffer untouched.
pub ghost enum LineOp {
    Insert(char),
    Remove(int, bool),
}

/// Whether the guard of an operation lets it act on the given state.
pub open spec fn op_enabled(m: LineModel, op: LineOp) -> bool {
    match op {
        LineOp::Insert(_) => !m.full(),
        LineOp::Remove(pos, cursor_fixed) => {
            &&& 1 <= pos <= m.chars.len()
            &&& (!cursor_fixed ==> m.cursor >= 1)
        },
    }
}

/// One guarded operation applied to the model.
pub open spec fn apply_op(m: LineModel, op: LineOp) -> LineModel {
    match op {
        LineOp::Insert(c) => m.insert_model(c),
        LineOp::Remove(pos, cursor_fixed) => {
            if op_enabled(m, op) {
                m.remove_model(pos, cursor_fixed)
            } else {
                m
            }
        },
    }
}

/// A whole sequence of guarded operations applied in order.
pub open spec fn apply_ops(m: LineModel, ops: Seq<LineOp>) -> LineModel
    decreases ops.len(),
{
    if ops.len() == 0 {
        m
    } else {
        apply_ops(apply_op(m, ops[0]), ops.drop_first())
    }
}

/// The net character count change of a sequence of operations: +1 for every
/// insert the bounded-input policy accepts, -1 for every remove whose guard
/// lets it through, counted along the states the operations actually reach.
pub open spec fn net_change(m: LineModel, ops: Seq<LineOp>) -> int
    decreases ops.len(),
{
    if ops.len() == 0 {
        0
    } else {
        let d: int = match ops[0] {
            LineOp::Insert(_) => if op_enabled(m, ops[0]) {
                1
            } else {
                0
            },
            LineOp::Remove(_, _) => if op_enabled(m, ops[0]) {
                -1
            } else {
                0
            },
        };
        d + net_change(apply_op(m, ops[0]), ops.drop_first())
    }
}

/// A single guarded operation keeps the buffer well formed.
pub proof fn lemma_op_preserves_wf(m: LineModel, op: LineOp)
    requires
        m.wf(),
    ensures
        apply_op(m, op).wf(),
{
}

/// Every prefix of a sequence of guarded editing operations leaves the
/// buffer well formed (in particular `0 <= cursor <= char_count` holds after
/// every operation), and the final character count is the initial one plus
/// the net number of surviving inserts.
pub proof fn lemma_edit_sequence(m: LineModel, ops: Seq<LineOp>)
    requires
        m.wf(),
    ensures
        forall|i: int| 0 <= i <= ops.len() ==> #[trigger] apply_ops(m, ops.take(i)).wf(),
        apply_ops(m, ops).chars.len() == m.chars.len() + net_change(m, ops),
    decreases ops.len(),
{
    assert(ops.take(0) =~= Seq::<LineOp>::empty());
    if ops.len() == 0 {
    } else {
        let m1 = apply_op(m, ops[0]);
        lemma_op_preserves_wf(m, ops[0]);
        lemma_edit_sequence(m1, ops.drop_first());
        assert forall|i: int| 0 <= i <= ops.len() implies #[trigger] apply_ops(
            m,
            ops.take(i),
        ).wf() by {
            if i >= 1 {
                let t = ops.take(i);
                assert(t[0] == ops[0]);
                assert(t.drop_first() =~= ops.drop_first().take(i - 1));
                assert(apply_ops(m, t) == apply_ops(m1, ops.drop_first().take(i - 1)));
            }
        }
    }
}

/// The editable command line. The cursor marks where the next character is
/// inserted; one slot of the capacity stays reserved, so at most
/// `capacity - 1` characters are ever held.
pub struct LineBuffer {
    chars: Vec<char>,
    cursor: usize,
    cap: usize,
}

impl View for LineBuffer {
    type V = LineModel;

    closed spec fn view(&self) -> LineModel {
        LineModel { chars: self.chars@, cursor: self.cursor as nat, cap: self.cap as nat }
    }
}

impl LineBuffer {
    pub open spec fn wf(&self) -> bool {
        self@.wf()
    }

    /// An empty buffer that will hold at most `capacity - 1` characters.
    pub fn new(capacity: usize) -> (r: LineBuffer)
        requires
            1 <= capacity,
        ensures
            r@ == (LineModel { chars: Seq::<char>::empty(), cursor: 0 as nat, cap: capacity as nat }),
            r.wf(),
    {
        LineBuffer { chars: Vec::new(), cursor: 0, cap: capacity }
    }

    pub fn char_count(&self) -> (n: usize)
        ensures
            n == self@.chars.len(),
    {
        self.chars.len()
    }

    pub fn cursor_pos(&self) -> (p: usize)
        ensures
            p == self@.cursor,
    {
        self.cursor
    }

    pub fn is_full(&self) -> (b: bool)
        requires
            self.wf(),
        ensures
            b == self@.full(),
    {
        self.chars.len() == self.cap - 1
    }

    /// Inserts `c` at the cursor, shifting the tail one slot right; a full
    /// buffer silently rejects the character and nothing changes.
    pub fn insert(&mut self, c: char)
        requires
            old(self).wf(),
        ensures
            final(self)@ == old(self)@.insert_model(c),
            final(self).wf(),
    {
        if self.chars.len() < self.cap - 1 {
            self.chars.insert(self.cursor, c);
            self.cursor = self.cursor + 1;
        }
        proof {
            assert(self@ =~= old(self)@.insert_model(c));
        }
    }

    /// Removes the character in front of one-based position `pos`, shifting
    /// the tail one slot left. With `cursor_fixed` the cursor stays put
    /// (forward-delete); without it the cursor moves one step left
    /// (backspace). Afterwards the cursor is clamped to the new length.
    pub fn remove(&mut self, pos: usize, cursor_fixed: bool)
        requires
            old(self).wf(),
            1 <= pos <= old(self)@.chars.len(),
            !cursor_fixed ==> 1 <= old(self)@.cursor,
        ensures
            final(self)@ == old(self)@.remove_model(pos as int, cursor_fixed),
            final(self).wf(),
    {
        self.chars.remove(pos - 1);
        if !cursor_fixed {
            self.cursor = self.cursor - 1;
        }
        if self.cursor > self.chars.len() {
            self.cursor = self.chars.len();
        }
        proof {
            assert(self@ =~= old(self)@.remove_model(pos as int, cursor_fixed));
        }
    }

    /// The first `char_count` characters as a string: what is echoed on a
    /// redraw and what a submitted line consists of.
    pub fn read(&self) -> (r: String)
        ensures
            r@ == self@.chars,
    {
        chars_to_string(&self.chars)
    }

    /// Overwrites the whole content with `s` and puts the cursor at the end
    /// (used when a history entry or preserved typing is presented).
    pub fn load(&mut self, s: &str)
        requires
            old(self).wf(),
            s@.len() < old(self)@.cap,
        ensures
            final(self)@ == (LineModel { chars: s@, cursor: s@.len(), cap: old(self)@.cap }),
            final(self).wf(),
    {
        self.chars = string_to_chars(s);
        self.cursor = self.chars.len();
    }

    /// Empties the buffer and puts the cursor at the start (submit and
    /// clear-line both end here).
    pub fn clear(&mut self)
        ensures
            final(self)@ == (LineModel {
                chars: Seq::<char>::empty(),
                cursor: 0 as nat,
                cap: old(self)@.cap,
            }),
    {
        self.chars.clear();
        self.cursor = 0;
    }

    pub fn cursor_home(&mut self)
        ensures
            final(self)@ == (LineModel { cursor: 0 as nat, ..old(self)@ }),
    {
        self.cursor = 0;
    }

    pub fn cursor_to_end(&mut self)
        ensures
            final(self)@ == (LineModel { cursor: old(self)@.chars.len(), ..old(self)@ }),
    {
        self.cursor = self.chars.len();
    }

    /// Moves the cursor one step left if it is not already at the start;
    /// reports whether it moved.
    pub fn cursor_left(&mut self) -> (moved: bool)
        ensures
            moved == (old(self)@.cursor > 0),
            moved ==> final(self)@ == (LineModel {
                cursor: (old(self)@.cursor - 1) as nat,
                ..old(self)@
            }),
            !moved ==> final(self)@ == old(self)@,
    {
        if self.cursor > 0 {
            self.cursor = self.cursor - 1;
            true
        } else {
            false
        }
    }

    /// Moves the cursor one step right if it is not already at the end;
    /// reports whether it moved.
    pub fn cursor_right(&mut self) -> (moved: bool)
        requires
            old(self).wf(),
        ensures
            moved == (old(self)@.cursor < old(self)@.chars.len()),
            moved ==> final(self)@ == (LineModel {
                cursor: (old(self)@.cursor + 1) as nat,
                ..old(self)@
            }),
            !moved ==> final(self)@ == old(self)@,
            final(self).wf(),
    {
        if self.cursor < self.chars.len() {
            self.cursor = self.cursor + 1;
            true
        } else {
            false
        }
    }
}

} // verus!
