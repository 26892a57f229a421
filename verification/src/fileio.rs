//! The editor and its operations.

use crate::edit::{
    insert_at, range_of, remove_range, set_line, take_range, with_inserted, with_line,
    without_range,
};
use crate::error::FileError;
use crate::lines::{join, join_lines, lines_of, split_lines, terminate_lines, terminated};
use crate::source::{
    count_byte_lines, count_view, current_lines, current_text, line_count, lines_or_empty,
    lines_view, read_text, snapshot, text_of, text_or_empty, text_view,
};
use crate::text::{non_blank, replace_all, replaced, trim_non_blank};
use vstd::prelude::*;
use vstd::utf8::encode_utf8;

verus! {

/// What `read_lines` gives for a file that was found as `found`.
pub open spec fn read_lines_result(
    found: Result<Seq<u8>, FileError>,
) -> Result<Seq<Seq<char>>, FileError> {
    match text_of(found) {
        Ok(text) => Ok(lines_of(text)),
        Err(e) => Err(e),
    }
}

/// What `read_non_empty_lines` gives for a file that was found as `found`.
pub open spec fn read_non_empty_lines_result(
    found: Result<Seq<u8>, FileError>,
) -> Result<Seq<Seq<char>>, FileError> {
    match text_of(found) {
        Ok(text) => Ok(non_blank(lines_of(text))),
        Err(e) => Err(e),
    }
}

/// What `count_lines` gives for a file that was found as `found`.
pub open spec fn count_lines_result(found: Result<Seq<u8>, FileError>) -> Result<nat, FileError> {
    match found {
        Ok(bytes) => Ok(line_count(bytes)),
        Err(e) => Err(e),
    }
}

/// What `is_empty` gives for a file that was found as `found`: a file that
/// is absent counts as empty.
pub open spec fn is_empty_result(found: Result<Seq<u8>, FileError>) -> Result<bool, FileError> {
    match found {
        Ok(bytes) => Ok(bytes.len() == 0),
        Err(FileError::NotFound) => Ok(true),
        Err(e) => Err(e),
    }
}

/// What `read_range` gives for a file that was found as `found`: the lines
/// numbered from `start` to `end`, as far as the file has them. A file that
/// cannot be read as text counts as one without lines.
pub open spec fn read_range_result(
    found: Result<Seq<u8>, FileError>,
    start: nat,
    end: nat,
) -> Result<Seq<Seq<char>>, FileError> {
    if start == 0 || end == 0 {
        Err(FileError::InvalidInput)
    } else {
        Ok(range_of(lines_or_empty(found), start, end))
    }
}

/// What `write_line` gives for a file that was found as `found`: the bytes
/// of the file's lines with line `n` set to `content`, joined by newlines.
pub open spec fn write_line_result(
    found: Result<Seq<u8>, FileError>,
    n: nat,
    content: Seq<char>,
) -> Result<Seq<u8>, FileError> {
    if n == 0 {
        Err(FileError::InvalidInput)
    } else {
        Ok(encode_utf8(join(with_line(lines_or_empty(found), n, content))))
    }
}

/// What `insert_lines` gives for a file that was found as `found`: the
/// bytes of the file's lines with `new_lines` inserted at position `n`,
/// joined by newlines.
pub open spec fn insert_lines_result(
    found: Result<Seq<u8>, FileError>,
    n: nat,
    new_lines: Seq<Seq<char>>,
) -> Result<Seq<u8>, FileError> {
    if n == 0 {
        Err(FileError::InvalidInput)
    } else {
        Ok(encode_utf8(join(with_inserted(lines_or_empty(found), n, new_lines))))
    }
}

/// What `remove_lines` gives for a file that was found as `found`: the
/// bytes of the file's lines without those from `start` to `end`, joined by
/// newlines.
pub open spec fn remove_lines_result(
    found: Result<Seq<u8>, FileError>,
    start: nat,
    end: nat,
) -> Result<Seq<u8>, FileError> {
    if start == 0 || end == 0 {
        Err(FileError::InvalidInput)
    } else {
        Ok(encode_utf8(join(without_range(lines_or_empty(found), start, end))))
    }
}

/// The bytes that `find_replace` stores for a file that was found as `found`.
pub open spec fn find_replace_image(
    found: Result<Seq<u8>, FileError>,
    find: Seq<char>,
    with: Seq<char>,
) -> Seq<u8> {
    encode_utf8(replaced(text_or_empty(found), find, with))
}

/// An editor of the lines of one text file, bound to the file's path.
///
/// The editor decides; it does not touch the file. An operation that reads
/// takes what a read of the file gave: the bytes of the file, or the error
/// of the read. An operation that changes the file returns the bytes to
/// store in its place, or to add at its end. Lines are numbered from 1.
#[derive(Debug)]
pub struct FileIO {
    path: String,
}

impl Clone for FileIO {
    /// An editor bound to the same path.
    fn clone(&self) -> (copy: Self)
        ensures
            copy@ == self@,
    {
        FileIO { path: self.path.clone() }
    }
}

impl View for FileIO {
    type V = Seq<char>;

    /// The path that the editor is bound to.
    closed spec fn view(&self) -> Seq<char> {
        self.path@
    }
}

impl FileIO {
    /// An editor for the file at `path`. Whether the file exists plays no
    /// part.
    pub fn new(path: &str) -> (editor: Self)
        ensures
            editor@ == path@,
    {
        FileIO { path: path.to_owned() }
    }

    /// An editor for the file at `path`, which it takes over.
    pub fn from_path(path: String) -> (editor: Self)
        ensures
            editor@ == path@,
    {
        FileIO { path }
    }

    /// The path that the editor is bound to.
    pub fn path(&self) -> (path: &str)
        ensures
            path@ == self@,
    {
        self.path.as_str()
    }

    /// Whether the file exists: a read that failed for another reason than
    /// the file's absence found it.
    pub fn file_exists(&self, source: &Result<Vec<u8>, FileError>) -> (found: bool)
        ensures
            found == (snapshot(source) != Err::<Seq<u8>, FileError>(FileError::NotFound)),
    {
        match source {
            Err(FileError::NotFound) => false,
            _ => true,
        }
    }

    /// The bytes to create the file with where it does not exist: none at
    /// all. A file that exists is left alone.
    pub fn create_if_missing(
        &self,
        source: &Result<Vec<u8>, FileError>,
    ) -> (image: Option<Vec<u8>>)
        ensures
            image is Some <==> snapshot(source) == Err::<Seq<u8>, FileError>(FileError::NotFound),
            image matches Some(bytes) ==> bytes@.len() == 0,
    {
        if !self.file_exists(source) {
            Some(Vec::new())
        } else {
            None
        }
    }

    /// The whole text of the file. The error of a read that failed is
    /// handed on; bytes that are no text are an `IOFailure`.
    pub fn read_all(&self, source: &Result<Vec<u8>, FileError>) -> (r: Result<String, FileError>)
        ensures
            text_view(&r) == text_of(snapshot(source)),
    {
        match read_text(source) {
            Ok(text) => Ok(text.to_owned()),
            Err(e) => Err(e),
        }
    }

    /// The lines of the file, in order, without their line ends. It fails
    /// where `read_all` fails.
    pub fn read_lines(
        &self,
        source: &Result<Vec<u8>, FileError>,
    ) -> (r: Result<Vec<String>, FileError>)
        ensures
            lines_view(&r) == read_lines_result(snapshot(source)),
    {
        match read_text(source) {
            Ok(text) => Ok(split_lines(text)),
            Err(e) => Err(e),
        }
    }

    /// The lines of the file, each trimmed of the white space at its ends,
    /// without those that are empty then. It fails where `read_all` fails.
    pub fn read_non_empty_lines(
        &self,
        source: &Result<Vec<u8>, FileError>,
    ) -> (r: Result<Vec<String>, FileError>)
        ensures
            lines_view(&r) == read_non_empty_lines_result(snapshot(source)),
    {
        match self.read_lines(source) {
            Ok(lines) => Ok(trim_non_blank(lines.as_slice())),
            Err(e) => Err(e),
        }
    }

    /// The number of lines of the file, counted on its bytes: the file need
    /// not be text. The error of a read that failed is handed on.
    pub fn count_lines(&self, source: &Result<Vec<u8>, FileError>) -> (r: Result<usize, FileError>)
        ensures
            count_view(&r) == count_lines_result(snapshot(source)),
    {
        match source {
            Ok(bytes) => Ok(count_byte_lines(bytes.as_slice())),
            Err(e) => Err(*e),
        }
    }

    /// Whether the file holds nothing: it has no bytes, or it is absent.
    /// The error of a read that failed for another reason is handed on.
    pub fn is_empty(&self, source: &Result<Vec<u8>, FileError>) -> (r: Result<bool, FileError>)
        ensures
            r == is_empty_result(snapshot(source)),
    {
        match source {
            Ok(bytes) => Ok(bytes.len() == 0),
            Err(FileError::NotFound) => Ok(true),
            Err(e) => Err(*e),
        }
    }

    /// The bytes to store so that the file holds `content` and nothing else.
    pub fn write(&self, content: &str) -> (image: Vec<u8>)
        ensures
            image@ == encode_utf8(content@),
    {
        content.as_bytes_vec()
    }

    /// The bytes to store so that the file holds `lines`, joined by
    /// newlines.
    pub fn write_lines(&self, lines: &[String]) -> (image: Vec<u8>)
        ensures
            image@ == encode_utf8(join(lines.deep_view())),
    {
        let joined = join_lines(lines);
        self.write(joined.as_str())
    }

    /// The bytes to add at the end of the file: `content` and a newline.
    pub fn append(&self, content: &str) -> (chunk: Vec<u8>)
        ensures
            chunk@ == encode_utf8(content@.push('\n')),
    {
        let mut line = content.to_owned();
        line.push('\n');
        line.as_str().as_bytes_vec()
    }

    /// The bytes to add at the end of the file: every line of `lines` with
    /// a newline after it.
    pub fn append_lines(&self, lines: &[String]) -> (chunk: Vec<u8>)
        ensures
            chunk@ == encode_utf8(terminated(lines.deep_view())),
    {
        let text = terminate_lines(lines);
        text.as_str().as_bytes_vec()
    }

    /// Sets line `line_number` to `content` and gives the bytes to store. A
    /// file with fewer lines gets empty lines up to that one. A file that
    /// cannot be read as text counts as one without lines. Line number 0 is
    /// refused as `InvalidInput`, and nothing is to be stored then.
    pub fn write_line(
        &self,
        source: &Result<Vec<u8>, FileError>,
        line_number: usize,
        content: &str,
    ) -> (r: Result<Vec<u8>, FileError>)
        ensures
            snapshot(&r) == write_line_result(snapshot(source), line_number as nat, content@),
    {
        if line_number == 0 {
            return Err(FileError::InvalidInput);
        }
        let mut lines = current_lines(source);
        set_line(&mut lines, line_number, content);
        Ok(self.write_lines(lines.as_slice()))
    }

    /// Inserts `content` as line `line_number`, before the line that stood
    /// there, and gives the bytes to store. Line number 0 is refused as
    /// `InvalidInput`, and nothing is to be stored then.
    pub fn insert_line(
        &self,
        source: &Result<Vec<u8>, FileError>,
        line_number: usize,
        content: &str,
    ) -> (r: Result<Vec<u8>, FileError>)
        ensures
            snapshot(&r) == insert_lines_result(
                snapshot(source),
                line_number as nat,
                seq![content@],
            ),
    {
        let mut one: Vec<String> = Vec::new();
        one.push(content.to_owned());
        proof {
            assert(one.deep_view() =~= seq![content@]);
        }
        self.insert_lines(source, line_number, one.as_slice())
    }

    /// Inserts `new_lines`, in order, before the line that stood at
    /// `line_number`, and gives the bytes to store. A file with fewer lines
    /// gets empty lines up to that position. A file that cannot be read as
    /// text counts as one without lines. Line number 0 is refused as
    /// `InvalidInput`.
    pub fn insert_lines(
        &self,
        source: &Result<Vec<u8>, FileError>,
        line_number: usize,
        new_lines: &[String],
    ) -> (r: Result<Vec<u8>, FileError>)
        ensures
            snapshot(&r) == insert_lines_result(
                snapshot(source),
                line_number as nat,
                new_lines.deep_view(),
            ),
    {
        if line_number == 0 {
            return Err(FileError::InvalidInput);
        }
        let mut lines = current_lines(source);
        insert_at(&mut lines, line_number, new_lines);
        Ok(self.write_lines(lines.as_slice()))
    }

    /// Removes line `line_number`, if the file has it, and gives the bytes
    /// to store: the lines of the file, joined by newlines, also where none
    /// was removed. Line number 0 is refused as `InvalidInput`.
    pub fn remove_line(
        &self,
        source: &Result<Vec<u8>, FileError>,
        line_number: usize,
    ) -> (r: Result<Vec<u8>, FileError>)
        ensures
            snapshot(&r) == remove_lines_result(
                snapshot(source),
                line_number as nat,
                line_number as nat,
            ),
    {
        self.remove_lines(source, line_number, line_number)
    }

    /// Removes the lines from `start` to `end`, both included and in either
    /// order, as far as the file has them, and gives the bytes to store.
    /// Line number 0 is refused as `InvalidInput`.
    pub fn remove_lines(
        &self,
        source: &Result<Vec<u8>, FileError>,
        start: usize,
        end: usize,
    ) -> (r: Result<Vec<u8>, FileError>)
        ensures
            snapshot(&r) == remove_lines_result(snapshot(source), start as nat, end as nat),
    {
        if start == 0 || end == 0 {
            return Err(FileError::InvalidInput);
        }
        let mut lines = current_lines(source);
        remove_range(&mut lines, start, end);
        Ok(self.write_lines(lines.as_slice()))
    }

    /// The lines from `start` to `end`, both included and in either order,
    /// as far as the file has them. A file that cannot be read as text
    /// counts as one without lines. Line number 0 is refused as
    /// `InvalidInput`.
    pub fn read_range(
        &self,
        source: &Result<Vec<u8>, FileError>,
        start: usize,
        end: usize,
    ) -> (r: Result<Vec<String>, FileError>)
        ensures
            lines_view(&r) == read_range_result(snapshot(source), start as nat, end as nat),
    {
        if start == 0 || end == 0 {
            return Err(FileError::InvalidInput);
        }
        let lines = current_lines(source);
        Ok(take_range(lines, start, end))
    }

    /// Replaces every occurrence of `find` in the text of the file by
    /// `replace` and gives the bytes to store. A file that cannot be read as
    /// text counts as an empty one.
    pub fn find_replace(
        &self,
        source: &Result<Vec<u8>, FileError>,
        find: &str,
        replace: &str,
    ) -> (image: Vec<u8>)
        ensures
            image@ == find_replace_image(snapshot(source), find@, replace@),
    {
        let content = current_text(source);
        let updated = replace_all(content.as_str(), find, replace);
        self.write(updated.as_str())
    }
}

/// An editor for the file at `path`.
pub fn file(path: &str) -> (editor: FileIO)
    ensures
        editor@ == path@,
{
    FileIO::new(path)
}

} // verus!
