//! Core logic of a terminal hex viewer: key-event decoding, document and
//! viewport navigation, screen rendering to an escape-coded byte stream, a
//! modal line-editor prompt, and a directory selector.
//!
//! Everything here is pure: the byte streams produced by the renderers are
//! handed to the caller to write out, and key bytes read from the terminal
//! are handed in. Terminal configuration and all other I/O live outside.

pub mod decoder;
pub mod editor;
pub mod file;
pub mod file_sel;
pub mod keys;
pub mod screen;
