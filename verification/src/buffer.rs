//! The line buffer: the in-memory model of one document.
//!
//! A `Buffer` owns the document's lines, remembers the path it persists to
//! (if any), and tracks whether the content has changed since it was last
//! loaded or saved.  Every line is a sequence of `char`s with no embedded
//! `'\n'` expected by the splitting discipline of [`crate::text`]; all
//! column positions count characters.  A buffer always holds at least one
//! (possibly empty) line: [`Buffer::wf`] states that invariant, every
//! constructor establishes it and every mutation preserves it.

use vstd::prelude::*;

use crate::text::spec_document_lines;
use crate::text::spec_join_lines;
use crate::text::split_document;
use crate::text::join_lines;

verus! {

/// Why a buffer operation failed.
#[derive(Debug, PartialEq, Eq)]
pub enum BufferError {
    /// A load was asked of a path that does not exist.
    FileNotFound(String),
    /// The storage medium failed while reading or writing; the payload is
    /// the reported reason.
    IoError(String),
    /// An operation referenced a line index at or beyond the line count.
    InvalidLineIndex(usize),
    /// An operation referenced a column outside the valid range of the
    /// line; the fields are the column and the line it was asked of.
    InvalidColumnIndex(usize, usize),
    /// A save was asked of a buffer with no associated path.
    NoDestination,
}

/// The in-memory text of one document.
pub struct Buffer {
    /// The path the document persists to; `None` for an unnamed document.
    pub file: Option<String>,
    /// The document's lines, in order, each free of `'\n'` by construction.
    pub lines: Vec<Vec<char>>,
    /// Whether the content changed since the last load or save.
    pub modified: bool,
}

impl View for Buffer {
    type V = Seq<Seq<char>>;

    open spec fn view(&self) -> Seq<Seq<char>> {
        self.lines.deep_view()
    }
}

/// What `display_name` shows: the associated path, or a fixed placeholder
/// for an unnamed document.
pub open spec fn spec_display_name(file: Option<String>) -> Seq<char> {
    match file {
        Some(path) => path@,
        None => "[No Name]"@,
    }
}

impl Buffer {
    /// A document always has at least one line.
    pub open spec fn wf(&self) -> bool {
        self@.len() >= 1
    }

    /// An empty, unnamed document: a single empty line, unmodified.
    pub fn new() -> (b: Buffer)
        ensures
            b.wf(),
            b@ == seq![Seq::<char>::empty()],
            b.file is None,
            b.modified == false,
    {
        let mut lines: Vec<Vec<char>> = Vec::new();
        lines.push(Vec::new());
        let b = Buffer { file: None, lines, modified: false };
        assert(b@ =~~= seq![Seq::<char>::empty()]);
        b
    }

    /// The number of lines; at least one on every well-formed buffer.
    pub fn len(&self) -> (n: usize)
        requires
            self.wf(),
        ensures
            n == self@.len(),
            n >= 1,
    {
        self.lines.len()
    }

    /// A document loaded from `file`, whose raw characters are `text`.
    /// The lines are `text` cut at every `'\n'`, one trailing separator
    /// stripped first; even an empty `text` yields a single empty line.
    pub fn from_text(file: String, text: &Vec<char>) -> (b: Buffer)
        ensures
            b.wf(),
            b@ == spec_document_lines(text@),
            b.file == Some(file),
            b.modified == false,
    {
        let lines = split_document(text);
        Buffer { file: Some(file), lines, modified: false }
    }

    /// The line at `index`, or `InvalidLineIndex` when there is none.
    pub fn get_line(&self, index: usize) -> (r: Result<&Vec<char>, BufferError>)
        ensures
            match r {
                Ok(l) => index < self@.len() && l@ == self@[index as int],
                Err(e) => index >= self@.len() && e == BufferError::InvalidLineIndex(index),
            },
    {
        if index < self.lines.len() {
            let l = &self.lines[index];
            proof {
                assert(l@ =~= self@[index as int]);
            }
            Ok(l)
        } else {
            Err(BufferError::InvalidLineIndex(index))
        }
    }

    /// Mutable access to the line at `index`, or `InvalidLineIndex` when
    /// there is none.  Whatever the caller writes through the reference
    /// replaces that one line; the line count, the associated path and the
    /// modified flag stay as they were.
    pub fn get_line_mut(&mut self, index: usize) -> (r: Result<&mut Vec<char>, BufferError>)
        ensures
            index < old(self)@.len() ==> r is Ok && *r->Ok_0 == old(self).lines@[index as int]
                && final(self).lines@ == old(self).lines@.update(index as int, *final(r->Ok_0))
                && final(self)@.len() == old(self)@.len() && final(self).file == old(self).file
                && final(self).modified == old(self).modified,
            index >= old(self)@.len() ==> r is Err && r->Err_0 == BufferError::InvalidLineIndex(
                index,
            ) && *final(self) == *old(self),
    {
        if index < self.lines.len() {
            Ok(&mut self.lines[index])
        } else {
            Err(BufferError::InvalidLineIndex(index))
        }
    }

    /// The character count of the line at `index`, or `InvalidLineIndex`
    /// when there is none.
    pub fn line_length(&self, index: usize) -> (r: Result<usize, BufferError>)
        ensures
            match r {
                Ok(n) => index < self@.len() && n == self@[index as int].len(),
                Err(e) => index >= self@.len() && e == BufferError::InvalidLineIndex(index),
            },
    {
        match self.get_line(index) {
            Ok(line) => Ok(line.len()),
            Err(e) => Err(e),
        }
    }

    /// The associated path, or a fixed placeholder for an unnamed document.
    pub fn display_name(&self) -> (r: String)
        ensures
            r@ == spec_display_name(self.file),
    {
        match &self.file {
            Some(path) => path.clone(),
            None => "[No Name]".to_owned(),
        }
    }

    /// Inserts `c` at column `col` of line `line`.  The column may equal
    /// the line's length (an append at the end); anything beyond that is
    /// `InvalidColumnIndex`, and a line index out of range is
    /// `InvalidLineIndex`.  On success the one line grows by the one
    /// character and the buffer counts as modified; on failure nothing
    /// changes.
    pub fn insert_char(&mut self, line: usize, col: usize, c: char) -> (r: Result<
        (),
        BufferError,
    >)
        requires
            old(self).wf(),
        ensures
            final(self).wf(),
            r is Ok <==> line < old(self)@.len() && col <= old(self)@[line as int].len(),
            r is Ok ==> final(self)@ == old(self)@.update(
                line as int,
                old(self)@[line as int].insert(col as int, c),
            ) && final(self).modified == true && final(self).file == old(self).file,
            line >= old(self)@.len() ==> r == Err::<(), BufferError>(
                BufferError::InvalidLineIndex(line),
            ),
            line < old(self)@.len() && col > old(self)@[line as int].len() ==> r == Err::<
                (),
                BufferError,
            >(BufferError::InvalidColumnIndex(col, line)),
            r is Err ==> *final(self) == *old(self),
    {
        if line >= self.lines.len() {
            return Err(BufferError::InvalidLineIndex(line));
        }
        if col > self.lines[line].len() {
            return Err(BufferError::InvalidColumnIndex(col, line));
        }
        self.lines[line].insert(col, c);
        self.modified = true;
        proof {
            assert(self@ =~~= old(self)@.update(
                line as int,
                old(self)@[line as int].insert(col as int, c),
            ));
        }
        Ok(())
    }

    /// Removes and returns the character at column `col` of line `line`.
    /// The column must lie strictly within the line — there is no character
    /// to remove at the end.  On success the one line shrinks by that
    /// character and the buffer counts as modified; on failure nothing
    /// changes.
    pub fn remove_char(&mut self, line: usize, col: usize) -> (r: Result<char, BufferError>)
        requires
            old(self).wf(),
        ensures
            final(self).wf(),
            r is Ok <==> line < old(self)@.len() && col < old(self)@[line as int].len(),
            r is Ok ==> r->Ok_0 == old(self)@[line as int][col as int],
            r is Ok ==> final(self)@ == old(self)@.update(
                line as int,
                old(self)@[line as int].remove(col as int),
            ),
            r is Ok ==> final(self).modified == true && final(self).file == old(self).file,
            line >= old(self)@.len() ==> r == Err::<char, BufferError>(
                BufferError::InvalidLineIndex(line),
            ),
            line < old(self)@.len() && col >= old(self)@[line as int].len() ==> r == Err::<
                char,
                BufferError,
            >(BufferError::InvalidColumnIndex(col, line)),
            r is Err ==> *final(self) == *old(self),
    {
        if line >= self.lines.len() {
            return Err(BufferError::InvalidLineIndex(line));
        }
        if col >= self.lines[line].len() {
            return Err(BufferError::InvalidColumnIndex(col, line));
        }
        let removed = self.lines[line].remove(col);
        self.modified = true;
        proof {
            assert(self@ =~~= old(self)@.update(
                line as int,
                old(self)@[line as int].remove(col as int),
            ));
        }
        Ok(removed)
    }

    /// Appends line `line_index` onto the line before it and removes line
    /// `line_index`, shrinking the buffer by one line.  Returns the length
    /// the previous line had before the join — the column a cursor would
    /// land on.  Line 0 has no previous line, so joining it fails, as does
    /// any index out of range; on failure nothing changes.
    pub fn join_with_previous_line(&mut self, line_index: usize) -> (r: Result<
        usize,
        BufferError,
    >)
        requires
            old(self).wf(),
        ensures
            final(self).wf(),
            r is Ok <==> 1 <= line_index < old(self)@.len(),
            r is Ok ==> r->Ok_0 == old(self)@[line_index - 1].len(),
            r is Ok ==> final(self)@ == old(self)@.update(
                line_index - 1,
                old(self)@[line_index - 1] + old(self)@[line_index as int],
            ).remove(line_index as int),
            r is Ok ==> final(self).modified == true && final(self).file == old(self).file,
            !(1 <= line_index < old(self)@.len()) ==> r == Err::<usize, BufferError>(
                BufferError::InvalidLineIndex(line_index),
            ) && *final(self) == *old(self),
    {
        if line_index == 0 || line_index >= self.lines.len() {
            return Err(BufferError::InvalidLineIndex(line_index));
        }
        let mut current = self.lines.remove(line_index);
        let previous_length = self.lines[line_index - 1].len();
        self.lines[line_index - 1].append(&mut current);
        self.modified = true;
        proof {
            assert(self@ =~~= old(self)@.update(
                line_index - 1,
                old(self)@[line_index - 1] + old(self)@[line_index as int],
            ).remove(line_index as int));
        }
        Ok(previous_length)
    }

    /// Removes the line at `index`.  A buffer with a single line keeps it
    /// and only clears its content, whatever `index` was asked — a document
    /// never has fewer than one line.  With more than one line, an index
    /// out of range is `InvalidLineIndex` and nothing changes.
    pub fn delete_line(&mut self, index: usize) -> (r: Result<(), BufferError>)
        requires
            old(self).wf(),
        ensures
            final(self).wf(),
            r is Ok <==> old(self)@.len() == 1 || index < old(self)@.len(),
            old(self)@.len() == 1 ==> r is Ok && final(self)@ == seq![Seq::<char>::empty()],
            old(self)@.len() > 1 && index < old(self)@.len() ==> r is Ok,
            old(self)@.len() > 1 && index < old(self)@.len() ==> final(self)@ == old(self)@.remove(
                index as int,
            ),

            r is Ok ==> final(self).modified == true && final(self).file == old(self).file,
            r is Err ==> r == Err::<(), BufferError>(BufferError::InvalidLineIndex(index))
                && *final(self) == *old(self),
    {
        if self.lines.len() == 1 {
            self.lines[0].clear();
            self.modified = true;
            proof {
                assert(self@ =~~= seq![Seq::<char>::empty()]);
            }
            return Ok(());
        }
        if index >= self.lines.len() {
            return Err(BufferError::InvalidLineIndex(index));
        }
        self.lines.remove(index);
        self.modified = true;
        proof {
            assert(self@ =~~= old(self)@.remove(index as int));
        }
        Ok(())
    }

    /// The whole document as one sequence of characters: the lines joined
    /// by single `'\n'` separators, no trailing separator.
    pub fn to_text(&self) -> (text: Vec<char>)
        ensures
            text@ == spec_join_lines(self@),
    {
        join_lines(&self.lines)
    }

    /// What a save writes and where: the associated path and the joined
    /// document text.  A buffer with no associated path has nowhere to
    /// save to, which is the one way this fails.
    pub fn save_content(&self) -> (r: Result<(String, Vec<char>), BufferError>)
        ensures
            match r {
                Ok(pt) => self.file is Some && pt.0@ == self.file->0@ && pt.1@ == spec_join_lines(
                    self@,
                ),
                Err(e) => self.file is None && e == BufferError::NoDestination,
            },
    {
        match &self.file {
            Some(path) => Ok((path.clone(), join_lines(&self.lines))),
            None => Err(BufferError::NoDestination),
        }
    }

    /// Associates the buffer with `path` as the destination of later
    /// saves.  Content and modified flag stay as they were.
    pub fn set_source(&mut self, path: String)
        ensures
            final(self).file == Some(path),
            final(self)@ == old(self)@,
            final(self).modified == old(self).modified,
    {
        self.file = Some(path);
    }

    /// Records that the content was just persisted: the buffer no longer
    /// counts as modified.  Content and associated path stay as they were.
    pub fn mark_saved(&mut self)
        ensures
            final(self).modified == false,
            final(self)@ == old(self)@,
            final(self).file == old(self).file,
    {
        self.modified = false;
    }
}

} // verus!
