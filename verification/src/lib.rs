//! In-memory text model for a line-oriented editor.
//!
//! The model holds one document as an ordered sequence of lines and offers
//! bounds-checked character and line edits, together with the pure text
//! transformations (splitting a document into lines, joining lines back into
//! a document) that loading and saving are built on.  All positions are
//! measured in Unicode code points: a line is a sequence of `char` values,
//! and a column index counts characters, never bytes.

pub mod buffer;
pub mod text;
