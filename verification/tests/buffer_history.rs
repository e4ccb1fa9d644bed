use line_shell::history::HistoryStore;
use line_shell::keys::{EscEvent, EscState, EscStep, esc_step};
use line_shell::line_buffer::LineBuffer;

#[test]
fn insert_and_read_back() {
    let mut buf = LineBuffer::new(50);
    for c in "hello".chars() {
        buf.insert(c);
    }
    assert_eq!(buf.read(), "hello".to_string());
    assert_eq!(buf.char_count(), 5);
    assert_eq!(buf.cursor_pos(), 5);
}

#[test]
fn char_count_tracks_net_surviving_inserts() {
    let mut buf = LineBuffer::new(4);
    buf.insert('a');
    buf.insert('b');
    buf.insert('c');
    buf.insert('d'); // rejected: the buffer is full
    assert_eq!(buf.char_count(), 3);
    buf.remove(3, false);
    buf.remove(2, false);
    assert_eq!(buf.char_count(), 1);
    buf.insert('z');
    assert_eq!(buf.char_count(), 2);
    assert!(buf.cursor_pos() <= buf.char_count());
    assert_eq!(buf.read(), "az".to_string());
}

#[test]
fn remove_with_fixed_cursor_is_forward_delete() {
    let mut buf = LineBuffer::new(50);
    for c in "abc".chars() {
        buf.insert(c);
    }
    buf.cursor_home();
    buf.remove(1, true); // delete 'a' under the cursor
    assert_eq!(buf.read(), "bc".to_string());
    assert_eq!(buf.cursor_pos(), 0);
}

#[test]
fn remove_with_moving_cursor_is_backspace() {
    let mut buf = LineBuffer::new(50);
    for c in "abc".chars() {
        buf.insert(c);
    }
    buf.remove(3, false);
    assert_eq!(buf.read(), "ab".to_string());
    assert_eq!(buf.cursor_pos(), 2);
}

#[test]
fn cursor_is_clamped_after_a_tail_remove() {
    let mut buf = LineBuffer::new(50);
    for c in "ab".chars() {
        buf.insert(c);
    }
    // Cursor sits at the end (2); removing the last character clamps it.
    buf.remove(2, true);
    assert_eq!(buf.cursor_pos(), 1);
    assert_eq!(buf.read(), "a".to_string());
}

#[test]
fn load_overwrites_and_moves_cursor_to_end() {
    let mut buf = LineBuffer::new(50);
    for c in "something long".chars() {
        buf.insert(c);
    }
    buf.load("hi");
    assert_eq!(buf.read(), "hi".to_string());
    assert_eq!(buf.cursor_pos(), 2);
    buf.clear();
    assert_eq!(buf.char_count(), 0);
    assert_eq!(buf.cursor_pos(), 0);
}

#[test]
fn cursor_steps_and_edges() {
    let mut buf = LineBuffer::new(50);
    for c in "ab".chars() {
        buf.insert(c);
    }
    assert!(!buf.cursor_right());
    assert!(buf.cursor_left());
    assert!(buf.cursor_left());
    assert!(!buf.cursor_left());
    assert!(buf.cursor_right());
    assert_eq!(buf.cursor_pos(), 1);
    buf.cursor_to_end();
    assert_eq!(buf.cursor_pos(), 2);
}

#[test]
fn history_push_and_eviction() {
    let mut h = HistoryStore::new(2);
    h.push("one".to_string());
    h.push("two".to_string());
    assert_eq!(h.len(), 2);
    h.push("three".to_string());
    assert_eq!(h.len(), 2);
    assert_eq!(h.entry_at(0), "three".to_string());
    assert_eq!(h.entry_at(1), "two".to_string());
}

#[test]
fn browse_state_lifecycle() {
    let mut h = HistoryStore::new(8);
    h.push("cmd".to_string());
    assert!(!h.is_browsing());
    h.begin_browse("draft".to_string());
    assert!(h.is_browsing());
    assert_eq!(h.depth(), 0);
    h.advance();
    assert_eq!(h.depth(), 1);
    assert_eq!(h.preserved_text(), "draft".to_string());
    h.retreat();
    assert_eq!(h.depth(), 0);
    h.reset_browse();
    assert!(!h.is_browsing());
    assert_eq!(h.preserved_text(), String::new());
}

#[test]
fn escape_decoder_recognizes_the_sequences() {
    assert_eq!(
        esc_step(EscState::AwaitIntroducer, 91),
        EscStep::Pending(EscState::AwaitCode)
    );
    assert_eq!(
        esc_step(EscState::AwaitIntroducer, 65),
        EscStep::Done(EscEvent::Unrecognized)
    );
    assert_eq!(esc_step(EscState::AwaitCode, 65), EscStep::Done(EscEvent::Up));
    assert_eq!(esc_step(EscState::AwaitCode, 66), EscStep::Done(EscEvent::Down));
    assert_eq!(esc_step(EscState::AwaitCode, 67), EscStep::Done(EscEvent::Right));
    assert_eq!(esc_step(EscState::AwaitCode, 68), EscStep::Done(EscEvent::Left));
    assert_eq!(esc_step(EscState::AwaitCode, 72), EscStep::Done(EscEvent::Home));
    assert_eq!(
        esc_step(EscState::AwaitCode, 49),
        EscStep::EmitAndContinue(EscEvent::Home, EscState::SkipOne)
    );
    assert_eq!(esc_step(EscState::AwaitCode, 70), EscStep::Done(EscEvent::End));
    assert_eq!(esc_step(EscState::AwaitCode, 52), EscStep::Done(EscEvent::End));
    assert_eq!(
        esc_step(EscState::AwaitCode, 51),
        EscStep::Pending(EscState::AwaitDeleteEnd)
    );
    assert_eq!(
        esc_step(EscState::AwaitCode, 99),
        EscStep::Done(EscEvent::Unrecognized)
    );
    assert_eq!(
        esc_step(EscState::AwaitDeleteEnd, 126),
        EscStep::Done(EscEvent::ForwardDelete)
    );
    assert_eq!(
        esc_step(EscState::AwaitDeleteEnd, 65),
        EscStep::Done(EscEvent::Unrecognized)
    );
    assert_eq!(
        esc_step(EscState::SkipOne, 65),
        EscStep::Done(EscEvent::Unrecognized)
    );
}
