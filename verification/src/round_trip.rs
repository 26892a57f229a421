//! How lines that were joined into a text read back from it.

use crate::lines::{ended_lines, ends_with_cr, join, lines_of, pieces};
use vstd::prelude::*;

verus! {

/// Whether `line` holds no newline.
pub open spec fn newline_free(line: Seq<char>) -> bool {
    forall|i: int| 0 <= i < line.len() ==> line[i] != '\n'
}

/// Whether no line of `lines` holds a newline.
pub open spec fn all_newline_free(lines: Seq<Seq<char>>) -> bool {
    forall|k: int| 0 <= k < lines.len() ==> newline_free(#[trigger] lines[k])
}

/// Whether no newline of `text` has a carriage return just before it.
pub open spec fn no_cr_before_newline(text: Seq<char>) -> bool {
    forall|i: int| 0 < i < text.len() && #[trigger] text[i] == '\n' ==> text[i - 1] != '\r'
}

/// Whether `text` is written the way the editor writes: its line ends are
/// bare newlines, and there is none after the last line.
pub open spec fn plainly_written(text: Seq<char>) -> bool {
    &&& no_cr_before_newline(text)
    &&& text.len() > 0 ==> text.last() != '\n'
}

/// A text always has at least one piece, and no piece holds a newline.
pub proof fn lemma_pieces_newline_free(text: Seq<char>)
    ensures
        pieces(text).len() >= 1,
        all_newline_free(pieces(text)),
    decreases text.len(),
{
    if text.len() > 0 {
        lemma_pieces_newline_free(text.drop_last());
    }
}

/// No line of a text holds a newline.
pub proof fn lemma_lines_newline_free(text: Seq<char>)
    ensures
        all_newline_free(lines_of(text)),
{
    lemma_pieces_newline_free(text);
    let parts = pieces(text);
    assert forall|k: int| 0 <= k < lines_of(text).len() implies newline_free(
        #[trigger] lines_of(text)[k],
    ) by {
        assert(newline_free(parts[k]));
    }
}

/// A text without newlines is its own single piece.
pub proof fn lemma_pieces_of_line(line: Seq<char>)
    requires
        newline_free(line),
    ensures
        pieces(line) == seq![line],
    decreases line.len(),
{
    if line.len() == 0 {
        assert(line == Seq::<char>::empty());
    } else {
        let before = pieces(line.drop_last());
        lemma_pieces_of_line(line.drop_last());
        assert(line.last() != '\n');
        assert(before.last() == line.drop_last());
        assert(line.drop_last().push(line.last()) == line);
        assert(before.drop_last().push(line) == seq![line]);
    }
}

/// A newline and a line after a text add that line to the text's pieces.
pub proof fn lemma_pieces_of_appended_line(text: Seq<char>, line: Seq<char>)
    requires
        newline_free(line),
    ensures
        pieces(text.push('\n') + line) == pieces(text).push(line),
    decreases line.len(),
{
    let whole = text.push('\n') + line;
    if line.len() == 0 {
        assert(whole == text.push('\n'));
        assert(whole.drop_last() == text);
        assert(line == Seq::<char>::empty());
    } else {
        let before = pieces(whole.drop_last());
        lemma_pieces_of_appended_line(text, line.drop_last());
        assert(whole.drop_last() == text.push('\n') + line.drop_last());
        assert(whole.last() == line.last());
        assert(whole.last() != '\n');
        assert(before == pieces(text).push(line.drop_last()));
        assert(before.last() == line.drop_last());
        assert(line.drop_last().push(line.last()) == line);
        assert(before.drop_last() == pieces(text));
    }
}

/// Joining lines that hold no newline and cutting the text at its newlines
/// gives the lines back.
pub proof fn lemma_pieces_of_join(lines: Seq<Seq<char>>)
    requires
        lines.len() >= 1,
        all_newline_free(lines),
    ensures
        pieces(join(lines)) == lines,
    decreases lines.len(),
{
    if lines.len() == 1 {
        lemma_pieces_of_line(lines[0]);
        assert(seq![lines[0]] == lines);
    } else {
        let before = lines.drop_last();
        assert forall|k: int| 0 <= k < before.len() implies newline_free(#[trigger] before[k]) by {
            assert(before[k] == lines[k]);
        }
        lemma_pieces_of_join(before);
        lemma_pieces_of_appended_line(join(before), lines.last());
        assert(before.push(lines.last()) == lines);
    }
}

/// Cutting a text at its newlines and joining the pieces gives the text
/// back.
pub proof fn lemma_join_of_pieces(text: Seq<char>)
    ensures
        join(pieces(text)) == text,
    decreases text.len(),
{
    if text.len() > 0 {
        let shorter = text.drop_last();
        let before = pieces(shorter);
        lemma_join_of_pieces(shorter);
        lemma_pieces_newline_free(shorter);
        assert(shorter.push(text.last()) == text);
        if text.last() == '\n' {
            let parts = before.push(Seq::<char>::empty());
            assert(parts.drop_last() == before);
            assert(join(before).push('\n') + Seq::<char>::empty() == join(before).push('\n'));
        } else {
            let grown = before.last().push(text.last());
            let parts = before.drop_last().push(grown);
            assert(parts.drop_last() == before.drop_last());
            if before.len() == 1 {
                assert(join(before) == before.last());
            } else {
                assert(join(before) == join(before.drop_last()).push('\n') + before.last());
                assert((join(before.drop_last()).push('\n') + before.last()).push(text.last())
                    == join(before.drop_last()).push('\n') + grown);
            }
        }
    }
}

/// What reading gives after `lines` were joined and stored: every line but
/// the last loses a carriage return at its end, and an empty last line is
/// not read at all.
pub open spec fn read_back(lines: Seq<Seq<char>>) -> Seq<Seq<char>> {
    if lines.len() == 0 {
        lines
    } else if lines.last().len() == 0 {
        ended_lines(lines)
    } else {
        ended_lines(lines).push(lines.last())
    }
}

/// The lines of a text that was joined from lines without newlines are
/// those lines read back.
pub proof fn lemma_lines_of_join(lines: Seq<Seq<char>>)
    requires
        all_newline_free(lines),
    ensures
        lines_of(join(lines)) == read_back(lines),
{
    if lines.len() == 0 {
        assert(lines_of(join(lines)) == lines);
    } else {
        lemma_pieces_of_join(lines);
    }
}

/// The last piece of a text ends in a carriage return exactly if the text
/// does, and is empty exactly if the text is empty or ends in a newline.
pub proof fn lemma_last_piece(text: Seq<char>)
    ensures
        pieces(text).len() >= 1,
        ends_with_cr(pieces(text).last()) <==> ends_with_cr(text),
        pieces(text).last().len() == 0 <==> (text.len() == 0 || text.last() == '\n'),
{
    if text.len() > 0 {
        lemma_pieces_newline_free(text.drop_last());
    }
}

/// In a text whose newlines have no carriage return before them, no piece
/// but the last ends in a carriage return.
pub proof fn lemma_pieces_without_cr(text: Seq<char>)
    requires
        no_cr_before_newline(text),
    ensures
        forall|k: int| 0 <= k < pieces(text).len() - 1 ==> !ends_with_cr(#[trigger] pieces(text)[k]),
    decreases text.len(),
{
    if text.len() > 0 {
        let shorter = text.drop_last();
        assert forall|i: int| 0 < i < shorter.len() && #[trigger] shorter[i] == '\n' implies shorter[i
            - 1] != '\r' by {
            assert(shorter[i] == text[i]);
            assert(shorter[i - 1] == text[i - 1]);
        }
        lemma_pieces_without_cr(shorter);
        lemma_last_piece(shorter);
        if text.last() == '\n' && shorter.len() > 0 {
            assert(shorter.last() == text[text.len() - 2]);
        }
    }
}

/// A text that is plainly written is its own lines, joined: its lines are
/// its pieces, but that an empty text has no line.
pub proof fn lemma_plain_text_lines(text: Seq<char>)
    requires
        plainly_written(text),
    ensures
        text.len() > 0 ==> lines_of(text) == pieces(text),
        text.len() == 0 ==> lines_of(text) == Seq::<Seq<char>>::empty(),
        join(lines_of(text)) == text,
{
    lemma_last_piece(text);
    lemma_pieces_without_cr(text);
    lemma_join_of_pieces(text);
    if text.len() > 0 {
        assert(lines_of(text) =~= pieces(text));
    } else {
        assert(lines_of(text) =~= Seq::<Seq<char>>::empty());
    }
}

} // verus!
