//! What holds of the editor's operations, one after the other: each law
//! speaks of a file as it was found, of what an operation stores, and of
//! what a later read of the stored bytes gives.

use crate::byte_lines::{lemma_lines_len, lemma_newlines_of_encoded};
use crate::edit::{range_of, with_inserted, with_line};
use crate::error::FileError;
use crate::fileio::{
    count_lines_result, insert_lines_result, read_lines_result, read_range_result,
    remove_lines_result, write_line_result,
};
use crate::lines::{ends_with_cr, join, lines_of, pieces, strip_cr};
use crate::round_trip::{
    all_newline_free, lemma_lines_newline_free, lemma_lines_of_join, lemma_plain_text_lines,
    newline_free, plainly_written, read_back,
};
use crate::source::{lines_or_empty, text_of};
use vstd::prelude::*;
use vstd::utf8::{decode_utf8, encode_utf8, valid_utf8};

verus! {

/// Bytes that encode a text are read as that text.
pub proof fn lemma_text_of_encoded(text: Seq<char>)
    ensures
        text_of(Ok(encode_utf8(text))) == Ok::<Seq<char>, FileError>(text),
{
    vstd::utf8::encode_utf8_valid_utf8(text);
    vstd::utf8::encode_utf8_decode_utf8(text);
}

/// Round trip of lines: lines without newlines, of which none but the last
/// ends in a carriage return and the last is not empty, are read as they
/// were written.
pub proof fn lemma_lines_round_trip(lines: Seq<Seq<char>>)
    requires
        all_newline_free(lines),
        forall|k: int| 0 <= k < lines.len() - 1 ==> !ends_with_cr(#[trigger] lines[k]),
        lines.len() > 0 ==> lines.last().len() > 0,
    ensures
        read_lines_result(Ok(encode_utf8(join(lines)))) == Ok::<Seq<Seq<char>>, FileError>(lines),
{
    lemma_text_of_encoded(join(lines));
    lemma_lines_of_join(lines);
    assert(read_back(lines) =~= lines);
}

/// Round trip of content: after `write(content)`, `read_lines` gives the
/// lines of `content`.
pub proof fn lemma_write_then_read_lines(content: Seq<char>)
    ensures
        read_lines_result(Ok(encode_utf8(content))) == Ok::<Seq<Seq<char>>, FileError>(
            lines_of(content),
        ),
{
    lemma_text_of_encoded(content);
}

/// Round trip of content that is plainly written: after `write(content)`,
/// `read_lines` gives `content` cut at its newlines, and joining what was
/// read gives `content` back. Content that is empty reads as no line.
pub proof fn lemma_write_then_read_lines_plain(content: Seq<char>)
    requires
        plainly_written(content),
    ensures
        content.len() > 0 ==> read_lines_result(Ok(encode_utf8(content))) == Ok::<
            Seq<Seq<char>>,
            FileError,
        >(pieces(content)),
        content.len() == 0 ==> read_lines_result(Ok(encode_utf8(content))) == Ok::<
            Seq<Seq<char>>,
            FileError,
        >(Seq::<Seq<char>>::empty()),
        join(lines_of(content)) == content,
{
    lemma_write_then_read_lines(content);
    lemma_plain_text_lines(content);
}

/// The lines that an edit starts from hold no newline.
pub proof fn lemma_current_lines_newline_free(found: Result<Seq<u8>, FileError>)
    ensures
        all_newline_free(lines_or_empty(found)),
{
    match text_of(found) {
        Ok(text) => lemma_lines_newline_free(text),
        Err(_) => {},
    }
}

/// What `read_lines` gives once lines without newlines were joined and
/// stored.
pub proof fn lemma_read_after_storing(lines: Seq<Seq<char>>)
    requires
        all_newline_free(lines),
    ensures
        lines_or_empty(Ok(encode_utf8(join(lines)))) == read_back(lines),
        read_lines_result(Ok(encode_utf8(join(lines)))) == Ok::<Seq<Seq<char>>, FileError>(
            read_back(lines),
        ),
{
    lemma_text_of_encoded(join(lines));
    lemma_lines_of_join(lines);
}

/// After `write_line(n, content)`, `read_range(n, n)` gives `content` and
/// nothing else. This holds of content that can stand as one line of a
/// file: it holds no newline; it does not end in a carriage return where a
/// line follows it; and it is not empty where it is the last line.
pub proof fn lemma_write_line_then_read_range(
    found: Result<Seq<u8>, FileError>,
    n: nat,
    content: Seq<char>,
)
    requires
        n >= 1,
        newline_free(content),
        n < lines_or_empty(found).len() ==> !ends_with_cr(content),
        n >= lines_or_empty(found).len() ==> content.len() > 0,
    ensures
        read_range_result(write_line_result(found, n, content), n, n) == Ok::<
            Seq<Seq<char>>,
            FileError,
        >(seq![content]),
{
    let before = lines_or_empty(found);
    let after = with_line(before, n, content);
    lemma_current_lines_newline_free(found);
    assert forall|k: int| 0 <= k < after.len() implies newline_free(#[trigger] after[k]) by {
        if k != n - 1 && k < before.len() {
            assert(after[k] == before[k]);
        }
    }
    lemma_read_after_storing(after);
    assert(range_of(read_back(after), n, n) =~= seq![content]);
}

/// Where `read_range` starts in a sequence of `len` lines when it is asked
/// for the lines from `n` on.
spec fn first_index(n: nat, len: nat) -> int {
    if n - 1 <= len {
        n - 1
    } else {
        len as int
    }
}

/// The conditions of `lemma_write_line_then_read_range` leave out only
/// content for which the statement is false.
pub proof fn lemma_write_line_then_read_range_fails_otherwise(
    found: Result<Seq<u8>, FileError>,
    n: nat,
    content: Seq<char>,
)
    requires
        n >= 1,
        read_range_result(write_line_result(found, n, content), n, n) == Ok::<
            Seq<Seq<char>>,
            FileError,
        >(seq![content]),
    ensures
        newline_free(content),
        n < lines_or_empty(found).len() ==> !ends_with_cr(content),
        n >= lines_or_empty(found).len() ==> content.len() > 0,
{
    let before = lines_or_empty(found);
    let after = with_line(before, n, content);
    let stored = Ok::<Seq<u8>, FileError>(encode_utf8(join(after)));
    let read = range_of(lines_or_empty(stored), n, n);
    assert(read == seq![content]);
    assert(read[0] == content);
    lemma_current_lines_newline_free(stored);
    lemma_current_lines_newline_free(found);
    assert(newline_free(content)) by {
        let at: int = first_index(n, lines_or_empty(stored).len());
        assert(read[0] == lines_or_empty(stored)[at]);
    }
    assert forall|k: int| 0 <= k < after.len() implies newline_free(#[trigger] after[k]) by {
        if k != n - 1 && k < before.len() {
            assert(after[k] == before[k]);
        }
    }
    lemma_read_after_storing(after);
    if n < before.len() && ends_with_cr(content) {
        assert(read[0] == strip_cr(after[n - 1]));
        assert(read[0].len() != content.len());
    }
    if n >= before.len() && content.len() == 0 {
        assert(read.len() == 0);
    }
}

/// After `insert_line(1, content)`, `read_lines` gives `content` as the
/// first line and, where the file had lines, its former first line as the
/// second. This holds of content that can stand as the first line of the
/// file, and of a former first line that can stand as the second: neither
/// holds a newline, neither ends in a carriage return where a line follows
/// it, and neither is empty where it is the last line.
pub proof fn lemma_insert_first_then_read_lines(
    found: Result<Seq<u8>, FileError>,
    content: Seq<char>,
)
    requires
        newline_free(content),
        lines_or_empty(found).len() == 0 ==> content.len() > 0,
        lines_or_empty(found).len() > 0 ==> !ends_with_cr(content),
        lines_or_empty(found).len() == 1 ==> lines_or_empty(found)[0].len() > 0,
        lines_or_empty(found).len() > 1 ==> !ends_with_cr(lines_or_empty(found)[0]),
    ensures
        ({
            let read = read_lines_result(insert_lines_result(found, 1, seq![content]));
            &&& read is Ok
            &&& read->Ok_0.len() >= 1
            &&& read->Ok_0[0] == content
            &&& lines_or_empty(found).len() > 0 ==> read->Ok_0.len() >= 2 && read->Ok_0[1]
                == lines_or_empty(found)[0]
        }),
{
    let before = lines_or_empty(found);
    let after = with_inserted(before, 1, seq![content]);
    lemma_current_lines_newline_free(found);
    assert(after =~= seq![content] + before);
    assert forall|k: int| 0 <= k < after.len() implies newline_free(#[trigger] after[k]) by {
        if k > 0 {
            assert(after[k] == before[k - 1]);
        }
    }
    lemma_read_after_storing(after);
    let lines = read_back(after);
    assert(lines.len() >= 1);
    assert(lines[0] == content);
    if before.len() > 0 {
        assert(after[1] == before[0]);
        assert(lines.len() >= 2);
        assert(lines[1] == before[0]);
    }
}

/// `remove_line(k)` with `k` beyond the last line removes nothing: the
/// lines of the file are stored as they are, joined by newlines.
pub proof fn lemma_remove_line_beyond_end(found: Result<Seq<u8>, FileError>, k: nat)
    requires
        k > lines_or_empty(found).len(),
    ensures
        remove_lines_result(found, k, k) == Ok::<Seq<u8>, FileError>(
            encode_utf8(join(lines_or_empty(found))),
        ),
{
}

/// `remove_line(k)` with `k` beyond the last line leaves the content of a
/// file as it is, byte for byte, where the file holds text that is plainly
/// written. Other content is stored the way the editor writes it: with bare
/// newlines between the lines and none after the last.
pub proof fn lemma_remove_line_beyond_end_keeps_content(bytes: Seq<u8>, k: nat)
    requires
        valid_utf8(bytes),
        plainly_written(decode_utf8(bytes)),
        k > lines_or_empty(Ok(bytes)).len(),
    ensures
        remove_lines_result(Ok(bytes), k, k) == Ok::<Seq<u8>, FileError>(bytes),
{
    lemma_plain_text_lines(decode_utf8(bytes));
    vstd::utf8::decode_utf8_encode_utf8(bytes);
}

/// `read_range` gives the same for a range and for the range with its ends
/// swapped.
pub proof fn lemma_read_range_either_order(found: Result<Seq<u8>, FileError>, start: nat, end: nat)
    ensures
        read_range_result(found, start, end) == read_range_result(found, end, start),
{
}

/// `remove_lines` stores the same for a range and for the range with its
/// ends swapped.
pub proof fn lemma_remove_lines_either_order(
    found: Result<Seq<u8>, FileError>,
    start: nat,
    end: nat,
)
    ensures
        remove_lines_result(found, start, end) == remove_lines_result(found, end, start),
{
}

/// `count_lines` counts the lines that `read_lines` gives: for a file that
/// holds text, the two agree.
pub proof fn lemma_count_lines_counts_read_lines(bytes: Seq<u8>)
    requires
        valid_utf8(bytes),
    ensures
        read_lines_result(Ok(bytes)) matches Ok(lines) && count_lines_result(Ok(bytes)) == Ok::<
            nat,
            FileError,
        >(lines.len()),
{
    let text = decode_utf8(bytes);
    vstd::utf8::decode_utf8_encode_utf8(bytes);
    lemma_newlines_of_encoded(text);
    lemma_lines_len(text);
}

/// A line number of 0 is refused, whatever the file holds: `write_line` and
/// `insert_line` then store nothing.
pub proof fn lemma_line_zero_refused(found: Result<Seq<u8>, FileError>, content: Seq<char>)
    ensures
        write_line_result(found, 0, content) == Err::<Seq<u8>, FileError>(FileError::InvalidInput),
        insert_lines_result(found, 0, seq![content]) == Err::<Seq<u8>, FileError>(
            FileError::InvalidInput,
        ),
{
}

} // verus!
