//! The editor state machine: it owns the command line and the history and
//! consumes one raw input byte at a time. Every byte yields an action for
//! the caller: stay quiet, redraw the line, dispatch a submitted line, or
//! terminate. Reading bytes and drawing stay with the caller; the editor
//! itself never blocks.

use vstd::prelude::*;

use crate::history::{HistoryModel, HistoryStore};
use crate::keys::{EscState, EscStep, esc_step, spec_esc_step};
use crate::keys::{CODE_DOWN, CODE_UP, ESC_INTRODUCER, EscEvent, KEY_BACKSPACE, KEY_CTRL_A,
    KEY_CTRL_B, KEY_CTRL_C, KEY_CTRL_E, KEY_CTRL_F, KEY_CTRL_U, KEY_ENTER, KEY_ESC};
use crate::line_buffer::{LineBuffer, LineModel};

verus! {

/// What the caller must do after feeding one byte.
#[derive(Debug, PartialEq, Eq)]
pub enum EditorAction {
    /// Nothing to do.
    Quiet,
    /// The line or the cursor changed: redraw prompt, text and cursor.
    Redraw,
    /// Enter finalized this line: print the line terminator, dispatch the
    /// line, then show a fresh prompt.
    Submitted(String),
    /// The interrupt key: restore the terminal and terminate the process.
    Interrupt,
}

/// Mathematical view of an [`EditorAction`].
pub ghost enum ActionModel {
    Quiet,
    Redraw,
    Submitted(Seq<char>),
    Interrupt,
}

impl View for EditorAction {
    type V = ActionModel;

    open spec fn view(&self) -> ActionModel {
        match self {
            EditorAction::Quiet => ActionModel::Quiet,
            EditorAction::Redraw => ActionModel::Redraw,
            EditorAction::Submitted(s) => ActionModel::Submitted(s@),
            EditorAction::Interrupt => ActionModel::Interrupt,
        }
    }
}

/// Mathematical view of an [`Editor`]: the line being edited, the history
/// with its browse state, and where the decoder stands inside an escape
/// sequence (`None` = not inside one).
#[verifier::ext_equal]
pub ghost struct EditorModel {
    pub line: LineModel,
    pub hist: HistoryModel,
    pub pending: Option<EscState>,
}

/// Editor states reachable from [`Editor::new`]: both components are well
/// formed, and every history entry, as well as the preserved typing, fits
/// the line buffer (they were all read out of it).
pub open spec fn wf_model(m: EditorModel) -> bool {
    &&& m.line.wf()
    &&& m.hist.wf()
    &&& (forall|i: int|
        0 <= i < m.hist.entries.len() ==> (#[trigger] m.hist.entries[i]).len() < m.line.cap)
    &&& m.hist.preserved.len() < m.line.cap
}

/// Cursor to the start of the line; always redrawn.
pub open spec fn home_step(m: EditorModel) -> (EditorModel, ActionModel) {
    (
        EditorModel { line: LineModel { cursor: 0 as nat, ..m.line }, ..m },
        ActionModel::Redraw,
    )
}

/// Cursor to the end of the line; nothing happens on an empty line.
pub open spec fn end_step(m: EditorModel) -> (EditorModel, ActionModel) {
    if m.line.chars.len() > 0 {
        (
            EditorModel { line: LineModel { cursor: m.line.chars.len(), ..m.line }, ..m },
            ActionModel::Redraw,
        )
    } else {
        (m, ActionModel::Quiet)
    }
}

/// Cursor one step left; a no-op at the start of the line.
pub open spec fn left_step(m: EditorModel) -> (EditorModel, ActionModel) {
    if m.line.cursor > 0 {
        (
            EditorModel {
                line: LineModel { cursor: (m.line.cursor - 1) as nat, ..m.line },
                ..m
            },
            ActionModel::Redraw,
        )
    } else {
        (m, ActionModel::Quiet)
    }
}

/// Cursor one step right; a no-op at the end of the line.
pub open spec fn right_step(m: EditorModel) -> (EditorModel, ActionModel) {
    if m.line.cursor < m.line.chars.len() {
        (
            EditorModel { line: LineModel { cursor: m.line.cursor + 1, ..m.line }, ..m },
            ActionModel::Redraw,
        )
    } else {
        (m, ActionModel::Quiet)
    }
}

/// Clear-line: the buffer empties and the cursor returns to the start; the
/// history and a running browse session are untouched.
pub open spec fn clear_step(m: EditorModel) -> (EditorModel, ActionModel) {
    (
        EditorModel {
            line: LineModel { chars: Seq::<char>::empty(), cursor: 0 as nat, cap: m.line.cap },
            ..m
        },
        ActionModel::Redraw,
    )
}

/// An ordinary character: a full buffer silently rejects it; otherwise it
/// is inserted at the cursor, and a running browse session is cancelled
/// without altering the just-typed content.
pub open spec fn insert_step(m: EditorModel, c: char) -> (EditorModel, ActionModel) {
    if m.line.full() {
        (m, ActionModel::Quiet)
    } else {
        (
            EditorModel {
                line: m.line.insert_model(c),
                hist: m.hist.reset_model(),
                ..m
            },
            ActionModel::Redraw,
        )
    }
}

/// Backspace: removes the character left of the cursor and pulls the cursor
/// along; a no-op when the line is empty or the cursor is at the start. A
/// performed deletion cancels a running browse session.
pub open spec fn backspace_step(m: EditorModel) -> (EditorModel, ActionModel) {
    if m.line.chars.len() != 0 && m.line.cursor != 0 {
        (
            EditorModel {
                line: m.line.remove_model(m.line.cursor as int, false),
                hist: m.hist.reset_model(),
                ..m
            },
            ActionModel::Redraw,
        )
    } else {
        (m, ActionModel::Quiet)
    }
}

/// Forward-delete: removes the character at the cursor, which stays put; a
/// no-op when the cursor is at the end of the line. A performed deletion
/// cancels a running browse session.
pub open spec fn fdelete_step(m: EditorModel) -> (EditorModel, ActionModel) {
    if m.line.chars.len() != 0 && m.line.cursor != m.line.chars.len() {
        (
            EditorModel {
                line: m.line.remove_model(m.line.cursor as int + 1, true),
                hist: m.hist.reset_model(),
                ..m
            },
            ActionModel::Redraw,
        )
    } else {
        (m, ActionModel::Quiet)
    }
}

/// Enter: the line is finalized and handed out. Browse state is normalized
/// first (the entries were never reordered, so this only ends the session),
/// a non-empty line is recorded in the history, and the buffer resets.
pub open spec fn submit_step(m: EditorModel) -> (EditorModel, ActionModel) {
    let text = m.line.chars;
    let ended = m.hist.reset_model();
    (
        EditorModel {
            line: LineModel { chars: Seq::<char>::empty(), cursor: 0 as nat, cap: m.line.cap },
            hist: if text.len() > 0 {
                ended.push_model(text)
            } else {
                ended
            },
            ..m
        },
        ActionModel::Submitted(text),
    )
}

/// Up-arrow: ignored while the history is empty. The first press of a
/// session preserves the current typing. While older entries remain, the
/// next one (depth steps back from the most recent) is presented with the
/// cursor at its end; pressing Up once more past the oldest entry restores
/// the preserved typing and ends the session.
pub open spec fn browse_up_step(m: EditorModel) -> (EditorModel, ActionModel) {
    if m.hist.entries.len() == 0 {
        (m, ActionModel::Quiet)
    } else {
        let h0 = if !m.hist.browsing {
            m.hist.begin_model(m.line.chars)
        } else {
            m.hist
        };
        if h0.depth < h0.entries.len() {
            let e = h0.entries[h0.depth as int];
            (
                EditorModel {
                    line: LineModel { chars: e, cursor: e.len(), cap: m.line.cap },
                    hist: h0.advance_model(),
                    ..m
                },
                ActionModel::Redraw,
            )
        } else {
            (
                EditorModel {
                    line: LineModel {
                        chars: h0.preserved,
                        cursor: h0.preserved.len(),
                        cap: m.line.cap,
                    },
                    hist: h0.reset_model(),
                    ..m
                },
                ActionModel::Redraw,
            )
        }
    }
}

/// Down-arrow: ignored unless a browse session is running. One step back
/// towards the present: while the new depth still points into the history,
/// that entry is presented; when the depth reaches zero, the preserved
/// typing is restored and the session ends.
pub open spec fn browse_down_step(m: EditorModel) -> (EditorModel, ActionModel) {
    if !m.hist.browsing {
        (m, ActionModel::Quiet)
    } else if m.hist.depth >= 2 {
        let e = m.hist.entries[m.hist.depth - 2];
        (
            EditorModel {
                line: LineModel { chars: e, cursor: e.len(), cap: m.line.cap },
                hist: m.hist.retreat_model(),
                ..m
            },
            ActionModel::Redraw,
        )
    } else {
        (
            EditorModel {
                line: LineModel {
                    chars: m.hist.preserved,
                    cursor: m.hist.preserved.len(),
                    cap: m.line.cap,
                },
                hist: m.hist.reset_model(),
                ..m
            },
            ActionModel::Redraw,
        )
    }
}

/// A completed escape sequence applied to the editor.
pub open spec fn apply_esc(m: EditorModel, e: EscEvent) -> (EditorModel, ActionModel) {
    match e {
        EscEvent::Up => browse_up_step(m),
        EscEvent::Down => browse_down_step(m),
        EscEvent::Left => left_step(m),
        EscEvent::Right => right_step(m),
        EscEvent::Home => home_step(m),
        EscEvent::End => end_step(m),
        EscEvent::ForwardDelete => fdelete_step(m),
        EscEvent::Unrecognized => (m, ActionModel::Quiet),
    }
}

/// A byte arriving outside any escape sequence. The bound control keys act;
/// ESC opens an escape sequence; every other control byte (Tab included) is
/// accepted and ignored; everything else is an ordinary character.
pub open spec fn normal_step(m: EditorModel, b: u8) -> (EditorModel, ActionModel) {
    if b == KEY_CTRL_A {
        home_step(m)
    } else if b == KEY_CTRL_B {
        left_step(m)
    } else if b == KEY_CTRL_C {
        (m, ActionModel::Interrupt)
    } else if b == KEY_CTRL_E {
        end_step(m)
    } else if b == KEY_CTRL_F {
        right_step(m)
    } else if b == KEY_ENTER {
        submit_step(m)
    } else if b == KEY_CTRL_U {
        clear_step(m)
    } else if b == KEY_ESC {
        (
            EditorModel { pending: Some(EscState::AwaitIntroducer), ..m },
            ActionModel::Quiet,
        )
    } else if b == KEY_BACKSPACE {
        backspace_step(m)
    } else if b <= 31 {
        (m, ActionModel::Quiet)
    } else {
        insert_step(m, b as char)
    }
}

/// The editor's full transition function: one raw byte in, the next state
/// and the caller's action out.
pub open spec fn editor_step(m: EditorModel, b: u8) -> (EditorModel, ActionModel) {
    match m.pending {
        Some(st) => {
            match spec_esc_step(st, b) {
                EscStep::Pending(next) => (
                    EditorModel { pending: Some(next), ..m },
                    ActionModel::Quiet,
                ),
                EscStep::Done(e) => apply_esc(EditorModel { pending: None, ..m }, e),
                EscStep::EmitAndContinue(e, next) => apply_esc(
                    EditorModel { pending: Some(next), ..m },
                    e,
                ),
            }
        },
        None => normal_step(m, b),
    }
}

/// The line-editing engine. Feed it raw bytes with [`Editor::handle_key`]
/// and perform the actions it returns.
pub struct Editor {
    line: LineBuffer,
    hist: HistoryStore,
    pending: Option<EscState>,
}

impl View for Editor {
    type V = EditorModel;

    closed spec fn view(&self) -> EditorModel {
        EditorModel { line: self.line@, hist: self.hist@, pending: self.pending }
    }
}

impl Editor {
    pub open spec fn wf(&self) -> bool {
        wf_model(self@)
    }

    /// A fresh editor: empty line of the given capacity (one slot of which
    /// stays reserved), empty history of the given capacity, no escape
    /// sequence underway.
    pub fn new(line_capacity: usize, history_capacity: usize) -> (r: Editor)
        requires
            1 <= line_capacity,
            1 <= history_capacity,
        ensures
            r@ == (EditorModel {
                line: LineModel {
                    chars: Seq::<char>::empty(),
                    cursor: 0 as nat,
                    cap: line_capacity as nat,
                },
                hist: HistoryModel {
                    entries: Seq::<Seq<char>>::empty(),
                    cap: history_capacity as nat,
                    depth: 0 as nat,
                    browsing: false,
                    preserved: Seq::<char>::empty(),
                },
                pending: None::<EscState>,
            }),
            r.wf(),
    {
        Editor {
            line: LineBuffer::new(line_capacity),
            hist: HistoryStore::new(history_capacity),
            pending: None,
        }
    }

    pub fn char_count(&self) -> (n: usize)
        ensures
            n == self@.line.chars.len(),
    {
        self.line.char_count()
    }

    pub fn cursor_pos(&self) -> (p: usize)
        ensures
            p == self@.line.cursor,
    {
        self.line.cursor_pos()
    }

    /// The text currently on the line (what a redraw echoes).
    pub fn text(&self) -> (r: String)
        ensures
            r@ == self@.line.chars,
    {
        self.line.read()
    }

    /// The history and its browse state, for reading.
    pub fn history(&self) -> (h: &HistoryStore)
        ensures
            h@ == self@.hist,
    {
        &self.hist
    }

    /// Feeds one raw input byte and reports what the caller must do.
    pub fn handle_key(&mut self, b: u8) -> (r: EditorAction)
        requires
            old(self).wf(),
        ensures
            final(self)@ == editor_step(old(self)@, b).0,
            r@ == editor_step(old(self)@, b).1,
            final(self).wf(),
    {
        proof {
            lemma_step_preserves_wf(old(self)@, b);
        }
        match self.pending {
            Some(st) => {
                match esc_step(st, b) {
                    EscStep::Pending(next) => {
                        self.pending = Some(next);
                        EditorAction::Quiet
                    },
                    EscStep::Done(e) => {
                        self.pending = None;
                        self.apply_escape(e)
                    },
                    EscStep::EmitAndContinue(e, next) => {
                        self.pending = Some(next);
                        self.apply_escape(e)
                    },
                }
            },
            None => self.normal_key(b),
        }
    }

    /// A completed escape sequence acting on the editor.
    fn apply_escape(&mut self, e: EscEvent) -> (r: EditorAction)
        requires
            old(self).wf(),
        ensures
            final(self)@ == apply_esc(old(self)@, e).0,
            r@ == apply_esc(old(self)@, e).1,
    {
        match e {
            EscEvent::Up => self.browse_up(),
            EscEvent::Down => self.browse_down(),
            EscEvent::Left => {
                if self.line.cursor_left() {
                    EditorAction::Redraw
                } else {
                    EditorAction::Quiet
                }
            },
            EscEvent::Right => {
                if self.line.cursor_right() {
                    EditorAction::Redraw
                } else {
                    EditorAction::Quiet
                }
            },
            EscEvent::Home => {
                self.line.cursor_home();
                EditorAction::Redraw
            },
            EscEvent::End => self.move_to_end(),
            EscEvent::ForwardDelete => self.forward_delete(),
            EscEvent::Unrecognized => EditorAction::Quiet,
        }
    }

    /// A byte arriving outside any escape sequence.
    fn normal_key(&mut self, b: u8) -> (r: EditorAction)
        requires
            old(self).wf(),
        ensures
            final(self)@ == normal_step(old(self)@, b).0,
            r@ == normal_step(old(self)@, b).1,
    {
        if b == KEY_CTRL_A {
            self.line.cursor_home();
            EditorAction::Redraw
        } else if b == KEY_CTRL_B {
            if self.line.cursor_left() {
                EditorAction::Redraw
            } else {
                EditorAction::Quiet
            }
        } else if b == KEY_CTRL_C {
            EditorAction::Interrupt
        } else if b == KEY_CTRL_E {
            self.move_to_end()
        } else if b == KEY_CTRL_F {
            if self.line.cursor_right() {
                EditorAction::Redraw
            } else {
                EditorAction::Quiet
            }
        } else if b == KEY_ENTER {
            self.submit()
        } else if b == KEY_CTRL_U {
            self.line.clear();
            EditorAction::Redraw
        } else if b == KEY_ESC {
            self.pending = Some(EscState::AwaitIntroducer);
            EditorAction::Quiet
        } else if b == KEY_BACKSPACE {
            self.backspace()
        } else if b <= 31 {
            EditorAction::Quiet
        } else {
            self.insert_typed(b as char)
        }
    }

    fn move_to_end(&mut self) -> (r: EditorAction)
        requires
            old(self).wf(),
        ensures
            final(self)@ == end_step(old(self)@).0,
            r@ == end_step(old(self)@).1,
    {
        if self.line.char_count() > 0 {
            self.line.cursor_to_end();
            EditorAction::Redraw
        } else {
            EditorAction::Quiet
        }
    }

    fn insert_typed(&mut self, c: char) -> (r: EditorAction)
        requires
            old(self).wf(),
        ensures
            final(self)@ == insert_step(old(self)@, c).0,
            r@ == insert_step(old(self)@, c).1,
    {
        if self.line.is_full() {
            EditorAction::Quiet
        } else {
            self.hist.reset_browse();
            self.line.insert(c);
            EditorAction::Redraw
        }
    }

    fn backspace(&mut self) -> (r: EditorAction)
        requires
            old(self).wf(),
        ensures
            final(self)@ == backspace_step(old(self)@).0,
            r@ == backspace_step(old(self)@).1,
    {
        let cnt = self.line.char_count();
        let pos = self.line.cursor_pos();
        if cnt != 0 && pos != 0 {
            self.hist.reset_browse();
            self.line.remove(pos, false);
            EditorAction::Redraw
        } else {
            EditorAction::Quiet
        }
    }

    fn forward_delete(&mut self) -> (r: EditorAction)
        requires
            old(self).wf(),
        ensures
            final(self)@ == fdelete_step(old(self)@).0,
            r@ == fdelete_step(old(self)@).1,
    {
        let cnt = self.line.char_count();
        let pos = self.line.cursor_pos();
        if cnt != 0 && pos != cnt {
            self.hist.reset_browse();
            self.line.remove(pos + 1, true);
            EditorAction::Redraw
        } else {
            EditorAction::Quiet
        }
    }

    fn submit(&mut self) -> (r: EditorAction)
        requires
            old(self).wf(),
        ensures
            final(self)@ == submit_step(old(self)@).0,
            r@ == submit_step(old(self)@).1,
    {
        let text = self.line.read();
        self.hist.reset_browse();
        if self.line.char_count() > 0 {
            let copy = text.clone();
            self.hist.push(copy);
        }
        self.line.clear();
        EditorAction::Submitted(text)
    }

    fn browse_up(&mut self) -> (r: EditorAction)
        requires
            old(self).wf(),
        ensures
            final(self)@ == browse_up_step(old(self)@).0,
            r@ == browse_up_step(old(self)@).1,
    {
        if self.hist.len() == 0 {
            EditorAction::Quiet
        } else {
            if !self.hist.is_browsing() {
                let snap = self.line.read();
                self.hist.begin_browse(snap);
            }
            if self.hist.depth() < self.hist.len() {
                let e = self.hist.entry_at(self.hist.depth());
                self.line.load(e.as_str());
                self.hist.advance();
            } else {
                let t = self.hist.preserved_text();
                self.line.load(t.as_str());
                self.hist.reset_browse();
            }
            EditorAction::Redraw
        }
    }

    fn browse_down(&mut self) -> (r: EditorAction)
        requires
            old(self).wf(),
        ensures
            final(self)@ == browse_down_step(old(self)@).0,
            r@ == browse_down_step(old(self)@).1,
    {
        if !self.hist.is_browsing() {
            EditorAction::Quiet
        } else if self.hist.depth() >= 2 {
            self.hist.retreat();
            let d = self.hist.depth();
            let e = self.hist.entry_at(d - 1);
            self.line.load(e.as_str());
            EditorAction::Redraw
        } else {
            let t = self.hist.preserved_text();
            self.line.load(t.as_str());
            self.hist.reset_browse();
            EditorAction::Redraw
        }
    }
}

/// Every transition keeps the editor well formed: in particular
/// `0 <= cursor <= char_count < capacity` and the history bounds hold after
/// every key.
pub proof fn lemma_step_preserves_wf(m: EditorModel, b: u8)
    requires
        wf_model(m),
    ensures
        wf_model(editor_step(m, b).0),
{
    match m.pending {
        Some(st) => {
            match spec_esc_step(st, b) {
                EscStep::Pending(_) => {},
                EscStep::Done(e) => {
                    lemma_event_preserves_wf(EditorModel { pending: None, ..m }, e);
                },
                EscStep::EmitAndContinue(e, next) => {
                    lemma_event_preserves_wf(EditorModel { pending: Some(next), ..m }, e);
                },
            }
        },
        None => {
            if b == KEY_ENTER {
                lemma_submit_preserves_wf(m);
            } else if b == KEY_CTRL_A || b == KEY_CTRL_B || b == KEY_CTRL_C || b == KEY_CTRL_E
                || b == KEY_CTRL_F || b == KEY_CTRL_U || b == KEY_ESC || b == KEY_BACKSPACE || b
                <= 31 {
            } else {
                assert(wf_model(insert_step(m, b as char).0));
            }
        },
    }
}

proof fn lemma_event_preserves_wf(m: EditorModel, e: EscEvent)
    requires
        wf_model(m),
    ensures
        wf_model(apply_esc(m, e).0),
{
}

proof fn lemma_submit_preserves_wf(m: EditorModel)
    requires
        wf_model(m),
    ensures
        wf_model(submit_step(m).0),
{
    let text = m.line.chars;
    let ended = m.hist.reset_model();
    if text.len() > 0 {
        let pushed = ended.push_model(text);
        assert forall|i: int| 0 <= i < pushed.entries.len() implies (#[trigger] pushed.entries[i]).len()
            >= 1 && pushed.entries[i].len() < m.line.cap by {
            if i > 0 {
                assert(pushed.entries[i] == ended.entries[i - 1]);
            }
        }
    }
}

/// The interrupt key acts whatever the buffer, cursor, history and browse
/// state are: outside an escape sequence it always yields `Interrupt` (on
/// which the caller terminates the process), and it changes nothing.
pub proof fn lemma_interrupt_always(m: EditorModel)
    requires
        m.pending is None,
    ensures
        editor_step(m, KEY_CTRL_C).1 == ActionModel::Interrupt,
        editor_step(m, KEY_CTRL_C).0 == m,
{
}

/// Forward-delete at cursor position `p < char_count` removes exactly the
/// character at `p` and leaves the cursor at `p`; at `p == char_count` it
/// is a no-op that mutates nothing.
pub proof fn lemma_forward_delete(m: EditorModel)
    requires
        wf_model(m),
    ensures
        m.line.cursor < m.line.chars.len() ==> {
            &&& fdelete_step(m).0.line.chars == m.line.chars.remove(m.line.cursor as int)
            &&& fdelete_step(m).0.line.cursor == m.line.cursor
            &&& fdelete_step(m).1 == ActionModel::Redraw
        },
        m.line.cursor == m.line.chars.len() ==> fdelete_step(m) == (m, ActionModel::Quiet),
{
    if m.line.cursor < m.line.chars.len() {
        assert(fdelete_step(m).0.line.chars =~= m.line.chars.remove(m.line.cursor as int));
    }
}

/// The editor run over a whole byte sequence (the actions are not kept).
pub open spec fn run_keys(m: EditorModel, bs: Seq<u8>) -> EditorModel
    decreases bs.len(),
{
    if bs.len() == 0 {
        m
    } else {
        run_keys(editor_step(m, bs[0]).0, bs.drop_first())
    }
}

/// The three bytes an Up-arrow key sends.
pub open spec fn up_press() -> Seq<u8> {
    seq![KEY_ESC, ESC_INTRODUCER, CODE_UP]
}

/// The three bytes a Down-arrow key sends.
pub open spec fn down_press() -> Seq<u8> {
    seq![KEY_ESC, ESC_INTRODUCER, CODE_DOWN]
}

/// `k` Up-arrow presses in a row.
pub open spec fn up_presses(k: nat) -> Seq<u8>
    decreases k,
{
    if k == 0 {
        Seq::<u8>::empty()
    } else {
        up_press() + up_presses((k - 1) as nat)
    }
}

/// `k` Down-arrow presses in a row.
pub open spec fn down_presses(k: nat) -> Seq<u8>
    decreases k,
{
    if k == 0 {
        Seq::<u8>::empty()
    } else {
        down_press() + down_presses((k - 1) as nat)
    }
}

proof fn lemma_run_append(m: EditorModel, a: Seq<u8>, b: Seq<u8>)
    ensures
        run_keys(m, a + b) == run_keys(run_keys(m, a), b),
    decreases a.len(),
{
    if a.len() == 0 {
        assert(a + b =~= b);
    } else {
        assert((a + b)[0] == a[0]);
        assert((a + b).drop_first() =~= a.drop_first() + b);
        lemma_run_append(editor_step(m, a[0]).0, a.drop_first(), b);
    }
}

/// The three bytes of an Up-arrow press, fed from outside any escape
/// sequence, amount to one `browse_up_step`.
proof fn lemma_up_press_runs(m: EditorModel)
    requires
        m.pending is None,
    ensures
        run_keys(m, up_press()) == browse_up_step(m).0,
{
    let s = up_press();
    let m1 = editor_step(m, s[0]).0;
    let s1 = s.drop_first();
    assert(s1 =~= seq![ESC_INTRODUCER, CODE_UP]);
    let m2 = editor_step(m1, s1[0]).0;
    let s2 = s1.drop_first();
    assert(s2 =~= seq![CODE_UP]);
    let m3 = editor_step(m2, s2[0]).0;
    assert(s2.drop_first() =~= Seq::<u8>::empty());
    assert(run_keys(m, s) == run_keys(m1, s1));
    assert(run_keys(m1, s1) == run_keys(m2, s2));
    assert(run_keys(m2, s2) == run_keys(m3, s2.drop_first()));
    assert(run_keys(m3, Seq::<u8>::empty()) == m3);
    assert(m1 =~= (EditorModel { pending: Some(EscState::AwaitIntroducer), ..m }));
    assert(m2 =~= (EditorModel { pending: Some(EscState::AwaitCode), ..m }));
    assert((EditorModel { pending: None, ..m2 }) =~= m);
}

/// Likewise for a Down-arrow press.
proof fn lemma_down_press_runs(m: EditorModel)
    requires
        m.pending is None,
    ensures
        run_keys(m, down_press()) == browse_down_step(m).0,
{
    let s = down_press();
    let m1 = editor_step(m, s[0]).0;
    let s1 = s.drop_first();
    assert(s1 =~= seq![ESC_INTRODUCER, CODE_DOWN]);
    let m2 = editor_step(m1, s1[0]).0;
    let s2 = s1.drop_first();
    assert(s2 =~= seq![CODE_DOWN]);
    let m3 = editor_step(m2, s2[0]).0;
    assert(s2.drop_first() =~= Seq::<u8>::empty());
    assert(run_keys(m, s) == run_keys(m1, s1));
    assert(run_keys(m1, s1) == run_keys(m2, s2));
    assert(run_keys(m2, s2) == run_keys(m3, s2.drop_first()));
    assert(run_keys(m3, Seq::<u8>::empty()) == m3);
    assert(m1 =~= (EditorModel { pending: Some(EscState::AwaitIntroducer), ..m }));
    assert(m2 =~= (EditorModel { pending: Some(EscState::AwaitCode), ..m }));
    assert((EditorModel { pending: None, ..m2 }) =~= m);
}

/// The editor mid-browse: after `k >= 1` Up presses from `m0`, the line
/// shows the entry `k - 1` steps back, the traversal is `k` deep, and the
/// original typing sits in the preservation slot.
spec fn mid_browse(m0: EditorModel, k: nat) -> EditorModel {
    EditorModel {
        line: LineModel {
            chars: m0.hist.entries[k - 1],
            cursor: m0.hist.entries[k - 1].len(),
            cap: m0.line.cap,
        },
        hist: HistoryModel {
            depth: k,
            browsing: true,
            preserved: m0.line.chars,
            ..m0.hist
        },
        pending: None,
    }
}

/// The editor after a browse session ended with the typing restored.
spec fn restored(m0: EditorModel) -> EditorModel {
    EditorModel {
        line: LineModel {
            chars: m0.line.chars,
            cursor: m0.line.chars.len(),
            cap: m0.line.cap,
        },
        hist: HistoryModel {
            depth: 0,
            browsing: false,
            preserved: Seq::<char>::empty(),
            ..m0.hist
        },
        pending: None,
    }
}

proof fn lemma_up_from(m0: EditorModel, d: nat, j: nat)
    requires
        1 <= d,
        d + j <= m0.hist.entries.len(),
    ensures
        run_keys(mid_browse(m0, d), up_presses(j)) == mid_browse(m0, d + j),
    decreases j,
{
    if j == 0 {
    } else {
        assert(up_presses(j) == up_press() + up_presses((j - 1) as nat));
        lemma_run_append(mid_browse(m0, d), up_press(), up_presses((j - 1) as nat));
        lemma_up_press_runs(mid_browse(m0, d));
        assert(browse_up_step(mid_browse(m0, d)).0 =~= mid_browse(m0, d + 1));
        lemma_up_from(m0, d + 1, (j - 1) as nat);
    }
}

proof fn lemma_up_k(m: EditorModel, k: nat)
    requires
        m.pending is None,
        !m.hist.browsing,
        1 <= k <= m.hist.entries.len(),
    ensures
        run_keys(m, up_presses(k)) == mid_browse(m, k),
{
    assert(up_presses(k) == up_press() + up_presses((k - 1) as nat));
    lemma_run_append(m, up_press(), up_presses((k - 1) as nat));
    lemma_up_press_runs(m);
    assert(browse_up_step(m).0 =~= mid_browse(m, 1));
    lemma_up_from(m, 1, (k - 1) as nat);
}

proof fn lemma_down_from(m0: EditorModel, d: nat)
    requires
        1 <= d <= m0.hist.entries.len(),
    ensures
        run_keys(mid_browse(m0, d), down_presses(d)) == restored(m0),
    decreases d,
{
    assert(down_presses(d) == down_press() + down_presses((d - 1) as nat));
    lemma_run_append(mid_browse(m0, d), down_press(), down_presses((d - 1) as nat));
    lemma_down_press_runs(mid_browse(m0, d));
    if d == 1 {
        assert(browse_down_step(mid_browse(m0, 1)).0 =~= restored(m0));
    } else {
        assert(browse_down_step(mid_browse(m0, d)).0 =~= mid_browse(m0, (d - 1) as nat));
        lemma_down_from(m0, (d - 1) as nat);
    }
}

/// The preservation round trip: from outside any browse session, pressing
/// Up arrow `size` times and then Down arrow `size` times (where `size` is
/// the number of history entries) puts exactly the text back that the
/// buffer held before the first press, with the cursor at its end; the
/// history entries are untouched and the browse session is over.
pub proof fn lemma_browse_round_trip(m: EditorModel)
    requires
        wf_model(m),
        m.pending is None,
        !m.hist.browsing,
    ensures
        ({
            let n = m.hist.entries.len();
            let r = run_keys(m, up_presses(n) + down_presses(n));
            &&& r.line.chars == m.line.chars
            &&& r.line.cap == m.line.cap
            &&& r.hist.entries == m.hist.entries
            &&& r.hist.cap == m.hist.cap
            &&& !r.hist.browsing
            &&& r.hist.depth == 0
        }),
{
    let n = m.hist.entries.len();
    if n == 0 {
        assert(up_presses(0) + down_presses(0) =~= Seq::<u8>::empty());
        assert(run_keys(m, Seq::<u8>::empty()) == m);
    } else {
        lemma_run_append(m, up_presses(n), down_presses(n));
        lemma_up_k(m, n);
        lemma_down_from(m, n);
        assert(run_keys(m, up_presses(n) + down_presses(n)) == restored(m));
    }
}

} // verus!
