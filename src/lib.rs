//! A small modal text editor: a grapheme-aware line buffer, a cursor and
//! viewport engine, and the key dispatch of its two editing modes.

pub mod row;
pub mod document;
pub mod editor;
