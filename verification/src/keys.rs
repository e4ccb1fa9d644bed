//! Raw terminal key codes and the decoder for multi-byte escape sequences.
//!
//! A sequence starts with ESC. The byte after it must be the introducer
//! `[`; the byte after that selects the action. Home and End each have an
//! `xterm`-style and a `vt100`-style encoding; the `vt100` Home consumes one
//! further trailing byte, and Delete is only emitted when its specific
//! terminator follows. Anything else decodes as unrecognized: the bytes are
//! consumed and nothing happens.

use vstd::prelude::*;

verus! {

// Single-byte keys handled in the normal state.
pub const KEY_CTRL_A: u8 = 1;
pub const KEY_CTRL_B: u8 = 2;
pub const KEY_CTRL_C: u8 = 3;
pub const KEY_CTRL_E: u8 = 5;
pub const KEY_CTRL_F: u8 = 6;
pub const KEY_ENTER: u8 = 13;
pub const KEY_CTRL_U: u8 = 21;
pub const KEY_ESC: u8 = 27;
pub const KEY_BACKSPACE: u8 = 127;

// Bytes of an escape sequence after ESC.
pub const ESC_INTRODUCER: u8 = 91;
pub const CODE_UP: u8 = 65;
pub const CODE_DOWN: u8 = 66;
pub const CODE_RIGHT: u8 = 67;
pub const CODE_LEFT: u8 = 68;
pub const CODE_HOME_XTERM: u8 = 72;
pub const CODE_HOME_VT100: u8 = 49;
pub const CODE_END_XTERM: u8 = 70;
pub const CODE_END_VT100: u8 = 52;
pub const CODE_DELETE: u8 = 51;
pub const CODE_TERMINATOR: u8 = 126;

/// Where the decoder stands inside an escape sequence.
#[derive(Clone, Copy, Debug, PartialEq, Eq)]
pub enum EscState {
    /// ESC was read; the introducer byte is expected next.
    AwaitIntroducer,
    /// `ESC [` was read; the action-selecting byte is expected next.
    AwaitCode,
    /// `ESC [` and the Delete code were read; only the terminator byte
    /// completes a forward-delete.
    AwaitDeleteEnd,
    /// The action was already emitted; one trailing byte remains to be
    /// consumed and discarded.
    SkipOne,
}

/// A decoded navigation or edit event.
#[derive(Clone, Copy, Debug, PartialEq, Eq)]
pub enum EscEvent {
    Up,
    Down,
    Left,
    Right,
    Home,
    End,
    ForwardDelete,
    /// The sequence meant nothing: its bytes are consumed and ignored.
    Unrecognized,
}

/// What feeding one byte to the decoder produced.
#[derive(Clone, Copy, Debug, PartialEq, Eq)]
pub enum EscStep {
    /// The sequence is not complete yet.
    Pending(EscState),
    /// The sequence is complete and decoded to this event.
    Done(EscEvent),
    /// The event takes effect now, but the sequence still consumes further
    /// byte(s) (the `vt100` Home encoding).
    EmitAndContinue(EscEvent, EscState),
}

/// The decoder's transition table.
pub open spec fn spec_esc_step(st: EscState, b: u8) -> EscStep {
    match st {
        EscState::AwaitIntroducer => {
            if b == ESC_INTRODUCER {
                EscStep::Pending(EscState::AwaitCode)
            } else {
                EscStep::Done(EscEvent::Unrecognized)
            }
        },
        EscState::AwaitCode => {
            if b == CODE_UP {
                EscStep::Done(EscEvent::Up)
            } else if b == CODE_DOWN {
                EscStep::Done(EscEvent::Down)
            } else if b == CODE_RIGHT {
                EscStep::Done(EscEvent::Right)
            } else if b == CODE_LEFT {
                EscStep::Done(EscEvent::Left)
            } else if b == CODE_HOME_XTERM {
                EscStep::Done(EscEvent::Home)
            } else if b == CODE_HOME_VT100 {
                EscStep::EmitAndContinue(EscEvent::Home, EscState::SkipOne)
            } else if b == CODE_END_XTERM {
                EscStep::Done(EscEvent::End)
            } else if b == CODE_END_VT100 {
                EscStep::Done(EscEvent::End)
            } else if b == CODE_DELETE {
                EscStep::Pending(EscState::AwaitDeleteEnd)
            } else {
                EscStep::Done(EscEvent::Unrecognized)
            }
        },
        EscState::AwaitDeleteEnd => {
            if b == CODE_TERMINATOR {
                EscStep::Done(EscEvent::ForwardDelete)
            } else {
                EscStep::Done(EscEvent::Unrecognized)
            }
        },
        EscState::SkipOne => EscStep::Done(EscEvent::Unrecognized),
    }
}

/// Feeds the byte that follows the bytes consumed so far of an escape
/// sequence.
pub fn esc_step(st: EscState, b: u8) -> (r: EscStep)
    ensures
        r == spec_esc_step(st, b),
{
    match st {
        EscState::AwaitIntroducer => {
            if b == ESC_INTRODUCER {
                EscStep::Pending(EscState::AwaitCode)
            } else {
                EscStep::Done(EscEvent::Unrecognized)
            }
        },
        EscState::AwaitCode => {
            if b == CODE_UP {
                EscStep::Done(EscEvent::Up)
            } else if b == CODE_DOWN {
                EscStep::Done(EscEvent::Down)
            } else if b == CODE_RIGHT {
                EscStep::Done(EscEvent::Right)
            } else if b == CODE_LEFT {
                EscStep::Done(EscEvent::Left)
            } else if b == CODE_HOME_XTERM {
                EscStep::Done(EscEvent::Home)
            } else if b == CODE_HOME_VT100 {
                EscStep::EmitAndContinue(EscEvent::Home, EscState::SkipOne)
            } else if b == CODE_END_XTERM {
                EscStep::Done(EscEvent::End)
            } else if b == CODE_END_VT100 {
                EscStep::Done(EscEvent::End)
            } else if b == CODE_DELETE {
                EscStep::Pending(EscState::AwaitDeleteEnd)
            } else {
                EscStep::Done(EscEvent::Unrecognized)
            }
        },
        EscState::AwaitDeleteEnd => {
            if b == CODE_TERMINATOR {
                EscStep::Done(EscEvent::ForwardDelete)
            } else {
                EscStep::Done(EscEvent::Unrecognized)
            }
        },
        EscState::SkipOne => EscStep::Done(EscEvent::Unrecognized),
    }
}

} // verus!
