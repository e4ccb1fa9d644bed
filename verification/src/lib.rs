//! Core of an interactive line-editing shell: an editable command buffer
//! with a movable cursor, a decoder for terminal escape sequences, a bounded
//! command history with in-progress-typing preservation, and a tokenizer and
//! command registry for dispatching submitted lines.
//!
//! Terminal input and output themselves stay outside this crate; the editor
//! here is a pure state machine that consumes one raw byte at a time and
//! says what the caller should do next (redraw, dispatch a line, exit).

pub mod dispatch;
pub mod editor;
pub mod history;
pub mod keys;
pub mod line_buffer;
pub mod text;
