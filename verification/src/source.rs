//! What a read of the file gave, and the text and lines that an operation
//! of the editor takes from it.

use crate::error::FileError;
use crate::lines::{lines_of, split_lines};
use vstd::prelude::*;
use vstd::utf8::{decode_utf8, valid_utf8};

verus! {

/// What a read of the file gave, as a mathematical value: the bytes of the
/// file, or why there are none.
pub open spec fn snapshot(source: &Result<Vec<u8>, FileError>) -> Result<Seq<u8>, FileError> {
    match source {
        Ok(bytes) => Ok(bytes@),
        Err(e) => Err(*e),
    }
}

/// A text that was read, or why none was, as a mathematical value.
pub open spec fn text_view(r: &Result<String, FileError>) -> Result<Seq<char>, FileError> {
    match r {
        Ok(text) => Ok(text@),
        Err(e) => Err(*e),
    }
}

/// The lines that were read, or why none were, as a mathematical value.
pub open spec fn lines_view(
    r: &Result<Vec<String>, FileError>,
) -> Result<Seq<Seq<char>>, FileError> {
    match r {
        Ok(lines) => Ok(lines.deep_view()),
        Err(e) => Err(*e),
    }
}

/// A number of lines, or why there is none, as a mathematical value.
pub open spec fn count_view(r: &Result<usize, FileError>) -> Result<nat, FileError> {
    match r {
        Ok(count) => Ok(*count as nat),
        Err(e) => Err(*e),
    }
}

/// The text of the file. Bytes that are not valid UTF-8 are no text: reading
/// them as text fails like any other failure of the storage.
pub open spec fn text_of(found: Result<Seq<u8>, FileError>) -> Result<Seq<char>, FileError> {
    match found {
        Ok(bytes) => if valid_utf8(bytes) {
            Ok(decode_utf8(bytes))
        } else {
            Err(FileError::IOFailure)
        },
        Err(e) => Err(e),
    }
}

/// The text that an edit of the whole content starts from: the text of the
/// file, or the empty text where the file could not be read as text.
pub open spec fn text_or_empty(found: Result<Seq<u8>, FileError>) -> Seq<char> {
    match text_of(found) {
        Ok(text) => text,
        Err(_) => Seq::<char>::empty(),
    }
}

/// The lines that an edit of lines starts from: the lines of the file, or no
/// lines at all where the file could not be read as text.
pub open spec fn lines_or_empty(found: Result<Seq<u8>, FileError>) -> Seq<Seq<char>> {
    match text_of(found) {
        Ok(text) => lines_of(text),
        Err(_) => Seq::<Seq<char>>::empty(),
    }
}

/// How many bytes of `bytes` are newlines.
pub open spec fn newline_count(bytes: Seq<u8>) -> nat
    decreases bytes.len(),
{
    if bytes.len() == 0 {
        0
    } else {
        newline_count(bytes.drop_last()) + if bytes.last() == 0x0A {
            1nat
        } else {
            0nat
        }
    }
}

/// How many lines `bytes` hold: one for each newline, and one more for what
/// follows the last newline, unless nothing follows it.
pub open spec fn line_count(bytes: Seq<u8>) -> nat {
    newline_count(bytes) + if bytes.len() > 0 && bytes.last() != 0x0A {
        1nat
    } else {
        0nat
    }
}

/// The text that `source` holds.
pub(crate) fn read_text<'a>(
    source: &'a Result<Vec<u8>, FileError>,
) -> (r: Result<&'a str, FileError>)
    ensures
        match r {
            Ok(text) => text_of(snapshot(source)) == Ok::<Seq<char>, FileError>(text@),
            Err(e) => text_of(snapshot(source)) == Err::<Seq<char>, FileError>(e),
        },
{
    match source {
        Ok(bytes) => match core::str::from_utf8(bytes.as_slice()) {
            Ok(text) => {
                proof {
                    vstd::utf8::encode_utf8_decode_utf8(text@);
                }
                Ok(text)
            },
            Err(_) => Err(FileError::IOFailure),
        },
        Err(e) => Err(*e),
    }
}

/// The text that `source` holds, or the empty text where it holds none.
pub(crate) fn current_text(source: &Result<Vec<u8>, FileError>) -> (text: String)
    ensures
        text@ == text_or_empty(snapshot(source)),
{
    match read_text(source) {
        Ok(text) => text.to_owned(),
        Err(_) => String::new(),
    }
}

/// The lines that `source` holds, or none where it holds no text.
pub(crate) fn current_lines(source: &Result<Vec<u8>, FileError>) -> (lines: Vec<String>)
    ensures
        lines.deep_view() == lines_or_empty(snapshot(source)),
{
    match read_text(source) {
        Ok(text) => split_lines(text),
        Err(_) => {
            let lines: Vec<String> = Vec::new();
            proof {
                assert(lines.deep_view() =~= Seq::<Seq<char>>::empty());
            }
            lines
        },
    }
}

/// Counts the lines of `bytes` in one pass.
pub(crate) fn count_byte_lines(bytes: &[u8]) -> (count: usize)
    ensures
        count == line_count(bytes@),
{
    let mut newlines: usize = 0;
    let mut i: usize = 0;
    while i < bytes.len()
        invariant
            i <= bytes.len(),
            newlines <= i,
            i > 0 && bytes@[i - 1] != 0x0A ==> newlines < i,
            newlines == newline_count(bytes@.take(i as int)),
        decreases bytes.len() - i,
    {
        proof {
            assert(bytes@.take(i + 1).drop_last() == bytes@.take(i as int));
        }
        if bytes[i] == 0x0A {
            newlines += 1;
        }
        i += 1;
    }
    proof {
        assert(bytes@.take(bytes.len() as int) == bytes@);
    }
    if bytes.len() > 0 && bytes[bytes.len() - 1] != 0x0A {
        newlines + 1
    } else {
        newlines
    }
}

} // verus!
