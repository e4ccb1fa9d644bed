use line_shell::editor::{Editor, EditorAction};

const ESC: u8 = 27;
const LBRACKET: u8 = 91;

fn feed_quietly(ed: &mut Editor, bytes: &[u8]) {
    for &b in bytes {
        ed.handle_key(b);
    }
}

fn type_text(ed: &mut Editor, text: &str) {
    for &b in text.as_bytes() {
        ed.handle_key(b);
    }
}

#[test]
fn typing_then_submit_returns_line() {
    let mut ed = Editor::new(50, 50);
    type_text(&mut ed, "echo a b c");
    assert_eq!(ed.text(), "echo a b c".to_string());
    assert_eq!(ed.char_count(), 10);
    assert_eq!(ed.cursor_pos(), 10);
    let action = ed.handle_key(13);
    assert_eq!(action, EditorAction::Submitted("echo a b c".to_string()));
    assert_eq!(ed.char_count(), 0);
    assert_eq!(ed.cursor_pos(), 0);
}

#[test]
fn every_typed_char_redraws() {
    let mut ed = Editor::new(50, 50);
    for &b in "hi".as_bytes() {
        assert_eq!(ed.handle_key(b), EditorAction::Redraw);
    }
}

#[test]
fn insert_beyond_capacity_is_silently_rejected() {
    // Capacity 4 leaves room for 3 characters (one slot is reserved).
    let mut ed = Editor::new(4, 50);
    assert_eq!(ed.handle_key(b'a'), EditorAction::Redraw);
    assert_eq!(ed.handle_key(b'b'), EditorAction::Redraw);
    assert_eq!(ed.handle_key(b'c'), EditorAction::Redraw);
    assert_eq!(ed.handle_key(b'd'), EditorAction::Quiet);
    assert_eq!(ed.text(), "abc".to_string());
    assert_eq!(ed.char_count(), 3);
}

#[test]
fn backspace_removes_before_cursor() {
    let mut ed = Editor::new(50, 50);
    type_text(&mut ed, "abc");
    assert_eq!(ed.handle_key(127), EditorAction::Redraw);
    assert_eq!(ed.text(), "ab".to_string());
    assert_eq!(ed.cursor_pos(), 2);
}

#[test]
fn backspace_on_empty_line_is_a_noop() {
    let mut ed = Editor::new(50, 50);
    assert_eq!(ed.handle_key(127), EditorAction::Quiet);
    assert_eq!(ed.char_count(), 0);
}

#[test]
fn backspace_at_line_start_is_a_noop() {
    let mut ed = Editor::new(50, 50);
    type_text(&mut ed, "abc");
    feed_quietly(&mut ed, &[1]); // Ctrl-A: cursor to start
    assert_eq!(ed.handle_key(127), EditorAction::Quiet);
    assert_eq!(ed.text(), "abc".to_string());
}

#[test]
fn forward_delete_mid_line_keeps_cursor() {
    let mut ed = Editor::new(50, 50);
    type_text(&mut ed, "abc");
    feed_quietly(&mut ed, &[ESC, LBRACKET, 68]); // left
    feed_quietly(&mut ed, &[ESC, LBRACKET, 68]); // left: cursor at 1
    assert_eq!(ed.cursor_pos(), 1);
    let action3 = ed.handle_key(ESC);
    assert_eq!(action3, EditorAction::Quiet);
    ed.handle_key(LBRACKET);
    let done = ed.handle_key(51); // Delete code: still pending
    assert_eq!(done, EditorAction::Quiet);
    let fin = ed.handle_key(126); // terminator
    assert_eq!(fin, EditorAction::Redraw);
    assert_eq!(ed.text(), "ac".to_string());
    assert_eq!(ed.cursor_pos(), 1);
}

#[test]
fn forward_delete_at_line_end_mutates_nothing() {
    let mut ed = Editor::new(50, 50);
    type_text(&mut ed, "abc");
    assert_eq!(ed.cursor_pos(), 3);
    feed_quietly(&mut ed, &[ESC, LBRACKET, 51]);
    assert_eq!(ed.handle_key(126), EditorAction::Quiet);
    assert_eq!(ed.text(), "abc".to_string());
    assert_eq!(ed.cursor_pos(), 3);
}

#[test]
fn forward_delete_without_terminator_is_dropped() {
    let mut ed = Editor::new(50, 50);
    type_text(&mut ed, "abc");
    feed_quietly(&mut ed, &[1]); // cursor to start
    feed_quietly(&mut ed, &[ESC, LBRACKET, 51]);
    assert_eq!(ed.handle_key(120), EditorAction::Quiet); // 'x' instead of '~'
    assert_eq!(ed.text(), "abc".to_string());
    assert_eq!(ed.char_count(), 3);
}

#[test]
fn home_and_end_keys_move_cursor() {
    let mut ed = Editor::new(50, 50);
    type_text(&mut ed, "abcd");
    assert_eq!(ed.handle_key(1), EditorAction::Redraw); // Ctrl-A
    assert_eq!(ed.cursor_pos(), 0);
    assert_eq!(ed.handle_key(5), EditorAction::Redraw); // Ctrl-E
    assert_eq!(ed.cursor_pos(), 4);
    feed_quietly(&mut ed, &[ESC, LBRACKET, 72]); // xterm Home
    assert_eq!(ed.cursor_pos(), 0);
    feed_quietly(&mut ed, &[ESC, LBRACKET, 70]); // xterm End
    assert_eq!(ed.cursor_pos(), 4);
    feed_quietly(&mut ed, &[ESC, LBRACKET, 52]); // vt100 End
    assert_eq!(ed.cursor_pos(), 4);
}

#[test]
fn vt100_home_consumes_one_trailing_byte() {
    let mut ed = Editor::new(50, 50);
    type_text(&mut ed, "abcd");
    ed.handle_key(ESC);
    ed.handle_key(LBRACKET);
    let action = ed.handle_key(49); // vt100 Home acts right away
    assert_eq!(action, EditorAction::Redraw);
    assert_eq!(ed.cursor_pos(), 0);
    // The trailing byte is consumed and discarded, not inserted.
    assert_eq!(ed.handle_key(126), EditorAction::Quiet);
    assert_eq!(ed.text(), "abcd".to_string());
    // The next byte is an ordinary character again.
    assert_eq!(ed.handle_key(b'x'), EditorAction::Redraw);
    assert_eq!(ed.text(), "xabcd".to_string());
}

#[test]
fn end_on_empty_line_is_a_noop() {
    let mut ed = Editor::new(50, 50);
    assert_eq!(ed.handle_key(5), EditorAction::Quiet);
    feed_quietly(&mut ed, &[ESC, LBRACKET]);
    assert_eq!(ed.handle_key(70), EditorAction::Quiet);
}

#[test]
fn unrecognized_escape_is_consumed_without_effect() {
    let mut ed = Editor::new(50, 50);
    type_text(&mut ed, "ab");
    assert_eq!(ed.handle_key(ESC), EditorAction::Quiet);
    assert_eq!(ed.handle_key(b'q'), EditorAction::Quiet); // not the introducer
    assert_eq!(ed.text(), "ab".to_string());
    // An unknown third byte after the introducer is dropped too.
    feed_quietly(&mut ed, &[ESC, LBRACKET]);
    assert_eq!(ed.handle_key(90), EditorAction::Quiet);
    assert_eq!(ed.text(), "ab".to_string());
    assert_eq!(ed.handle_key(b'z'), EditorAction::Redraw);
    assert_eq!(ed.text(), "abz".to_string());
}

#[test]
fn arrow_left_right_clamp_at_the_edges() {
    let mut ed = Editor::new(50, 50);
    type_text(&mut ed, "ab");
    assert_eq!(ed.handle_key(6), EditorAction::Quiet); // Ctrl-F at end
    feed_quietly(&mut ed, &[2, 2]); // Ctrl-B twice: cursor 0
    assert_eq!(ed.cursor_pos(), 0);
    assert_eq!(ed.handle_key(2), EditorAction::Quiet);
    assert_eq!(ed.cursor_pos(), 0);
    assert_eq!(ed.handle_key(6), EditorAction::Redraw);
    assert_eq!(ed.cursor_pos(), 1);
}

#[test]
fn insert_mid_line_shifts_the_tail() {
    let mut ed = Editor::new(50, 50);
    type_text(&mut ed, "ad");
    feed_quietly(&mut ed, &[2]); // Ctrl-B
    type_text(&mut ed, "bc");
    assert_eq!(ed.text(), "abcd".to_string());
    assert_eq!(ed.cursor_pos(), 3);
}

#[test]
fn clear_line_empties_buffer() {
    let mut ed = Editor::new(50, 50);
    type_text(&mut ed, "abc");
    assert_eq!(ed.handle_key(21), EditorAction::Redraw); // Ctrl-U
    assert_eq!(ed.char_count(), 0);
    assert_eq!(ed.cursor_pos(), 0);
}

#[test]
fn tab_and_unbound_controls_are_ignored() {
    let mut ed = Editor::new(50, 50);
    type_text(&mut ed, "a");
    for b in [0u8, 4, 7, 8, 9, 10, 11, 12, 14, 18, 22, 24, 26, 31] {
        assert_eq!(ed.handle_key(b), EditorAction::Quiet);
    }
    assert_eq!(ed.text(), "a".to_string());
    assert_eq!(ed.cursor_pos(), 1);
}

#[test]
fn interrupt_on_empty_buffer() {
    let mut ed = Editor::new(50, 50);
    assert_eq!(ed.handle_key(3), EditorAction::Interrupt);
}

#[test]
fn interrupt_mid_edit() {
    let mut ed = Editor::new(50, 50);
    type_text(&mut ed, "half a comm");
    assert_eq!(ed.handle_key(3), EditorAction::Interrupt);
    assert_eq!(ed.text(), "half a comm".to_string());
}

#[test]
fn interrupt_mid_history_browse() {
    let mut ed = Editor::new(50, 50);
    type_text(&mut ed, "one");
    ed.handle_key(13);
    feed_quietly(&mut ed, &[ESC, LBRACKET, 65]); // Up: browsing
    assert!(ed.history().is_browsing());
    assert_eq!(ed.handle_key(3), EditorAction::Interrupt);
}

#[test]
fn empty_submit_is_not_recorded() {
    let mut ed = Editor::new(50, 50);
    let action = ed.handle_key(13);
    assert_eq!(action, EditorAction::Submitted(String::new()));
    assert_eq!(ed.history().len(), 0);
}

#[test]
fn submitted_lines_land_most_recent_first() {
    let mut ed = Editor::new(50, 50);
    for line in ["one", "two", "three"] {
        type_text(&mut ed, line);
        ed.handle_key(13);
    }
    let h = ed.history();
    assert_eq!(h.len(), 3);
    assert_eq!(h.entry_at(0), "three".to_string());
    assert_eq!(h.entry_at(1), "two".to_string());
    assert_eq!(h.entry_at(2), "one".to_string());
}

#[test]
fn history_capacity_evicts_the_oldest() {
    let mut ed = Editor::new(50, 3);
    for line in ["one", "two", "three", "four", "five"] {
        type_text(&mut ed, line);
        ed.handle_key(13);
    }
    let h = ed.history();
    assert_eq!(h.len(), 3);
    assert_eq!(h.entry_at(0), "five".to_string());
    assert_eq!(h.entry_at(1), "four".to_string());
    assert_eq!(h.entry_at(2), "three".to_string());
}

#[test]
fn up_arrow_walks_into_the_past() {
    let mut ed = Editor::new(50, 50);
    for line in ["alpha", "beta"] {
        type_text(&mut ed, line);
        ed.handle_key(13);
    }
    feed_quietly(&mut ed, &[ESC, LBRACKET, 65]);
    assert_eq!(ed.text(), "beta".to_string());
    assert_eq!(ed.cursor_pos(), 4);
    feed_quietly(&mut ed, &[ESC, LBRACKET, 65]);
    assert_eq!(ed.text(), "alpha".to_string());
    assert_eq!(ed.history().depth(), 2);
}

#[test]
fn browse_round_trip_restores_typing() {
    let mut ed = Editor::new(50, 50);
    for line in ["alpha", "beta"] {
        type_text(&mut ed, line);
        ed.handle_key(13);
    }
    type_text(&mut ed, "work in progress");
    let size = ed.history().len();
    for _ in 0..size {
        feed_quietly(&mut ed, &[ESC, LBRACKET, 65]);
    }
    assert_eq!(ed.text(), "alpha".to_string());
    for _ in 0..size {
        feed_quietly(&mut ed, &[ESC, LBRACKET, 66]);
    }
    assert_eq!(ed.text(), "work in progress".to_string());
    assert!(!ed.history().is_browsing());
    assert_eq!(ed.history().depth(), 0);
    assert_eq!(ed.history().len(), 2);
}

#[test]
fn up_past_the_oldest_wraps_back_to_typing() {
    let mut ed = Editor::new(50, 50);
    type_text(&mut ed, "only");
    ed.handle_key(13);
    type_text(&mut ed, "draft");
    feed_quietly(&mut ed, &[ESC, LBRACKET, 65]);
    assert_eq!(ed.text(), "only".to_string());
    feed_quietly(&mut ed, &[ESC, LBRACKET, 65]); // past the oldest: wrap
    assert_eq!(ed.text(), "draft".to_string());
    assert!(!ed.history().is_browsing());
}

#[test]
fn up_with_empty_history_is_a_noop() {
    let mut ed = Editor::new(50, 50);
    type_text(&mut ed, "abc");
    let a1 = ed.handle_key(ESC);
    let a2 = ed.handle_key(LBRACKET);
    let a3 = ed.handle_key(65);
    assert_eq!(a1, EditorAction::Quiet);
    assert_eq!(a2, EditorAction::Quiet);
    assert_eq!(a3, EditorAction::Quiet);
    assert_eq!(ed.text(), "abc".to_string());
}

#[test]
fn down_without_browsing_is_a_noop() {
    let mut ed = Editor::new(50, 50);
    type_text(&mut ed, "one");
    ed.handle_key(13);
    type_text(&mut ed, "ab");
    feed_quietly(&mut ed, &[ESC, LBRACKET]);
    assert_eq!(ed.handle_key(66), EditorAction::Quiet);
    assert_eq!(ed.text(), "ab".to_string());
}

#[test]
fn editing_cancels_the_browse_session() {
    let mut ed = Editor::new(50, 50);
    type_text(&mut ed, "first");
    ed.handle_key(13);
    type_text(&mut ed, "typed");
    feed_quietly(&mut ed, &[ESC, LBRACKET, 65]);
    assert_eq!(ed.text(), "first".to_string());
    assert!(ed.history().is_browsing());
    ed.handle_key(b'!');
    assert!(!ed.history().is_browsing());
    assert_eq!(ed.history().depth(), 0);
    assert_eq!(ed.text(), "first!".to_string());
}

#[test]
fn deletion_cancels_the_browse_session() {
    let mut ed = Editor::new(50, 50);
    type_text(&mut ed, "first");
    ed.handle_key(13);
    feed_quietly(&mut ed, &[ESC, LBRACKET, 65]);
    assert!(ed.history().is_browsing());
    ed.handle_key(127); // backspace on the presented entry
    assert!(!ed.history().is_browsing());
    assert_eq!(ed.text(), "firs".to_string());
}

#[test]
fn submit_mid_browse_keeps_chronological_order() {
    let mut ed = Editor::new(50, 50);
    for line in ["one", "two"] {
        type_text(&mut ed, line);
        ed.handle_key(13);
    }
    feed_quietly(&mut ed, &[ESC, LBRACKET, 65]);
    feed_quietly(&mut ed, &[ESC, LBRACKET, 65]);
    assert_eq!(ed.text(), "one".to_string());
    let action = ed.handle_key(13);
    assert_eq!(action, EditorAction::Submitted("one".to_string()));
    let h = ed.history();
    assert!(!h.is_browsing());
    assert_eq!(h.len(), 3);
    assert_eq!(h.entry_at(0), "one".to_string());
    assert_eq!(h.entry_at(1), "two".to_string());
    assert_eq!(h.entry_at(2), "one".to_string());
}
