//! A terminal pane engine: it turns a child shell's output text into a
//! bounded buffer of display lines with a cursor, turns key events into the
//! bytes a shell expects, and keeps the state of a chat panel beside it.

pub mod screen;
pub mod keys;
pub mod pane;
pub mod session;
pub mod chat;
pub mod markup;
