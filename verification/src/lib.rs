//! Core of a small terminal text editor: a line-oriented document model,
//! cursor and viewport coordination, and a render planner. Terminal I/O,
//! input decoding and the event loop live outside this crate's scope; the
//! library only consumes decoded key events and a terminal size, and hands
//! back plain values to display.

pub mod document;
pub mod editor;
pub mod row;
pub mod terminal;
