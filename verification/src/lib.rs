//! Core engine of a small terminal text editor.
//!
//! The library keeps a document as a sequence of rows, derives a
//! tab-expanded render string and a per-column syntax classification for
//! each row, maps between content columns and render columns, scrolls a
//! viewport so the cursor stays visible, applies character- and row-level
//! edits, and steps an incremental search.  Terminal I/O lives outside the
//! library; every function here works on plain values and is verified.

pub mod draw;
pub mod edit;
pub mod editor;
pub mod input;
pub mod lines;
pub mod row;
pub mod scroll;
pub mod search;
pub mod syntax;
