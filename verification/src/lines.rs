//! Texts and their lines: what the lines of a text are, and how lines are
//! joined into a text.

use vstd::prelude::*;

verus! {

/// The pieces that the newline characters of `text` separate. A text with `k`
/// newlines has `k + 1` pieces, some of which may be empty, and no piece holds
/// a newline.
pub open spec fn pieces(text: Seq<char>) -> Seq<Seq<char>>
    decreases text.len(),
{
    if text.len() == 0 {
        seq![Seq::<char>::empty()]
    } else {
        let before = pieces(text.drop_last());
        if text.last() == '\n' {
            before.push(Seq::<char>::empty())
        } else {
            before.drop_last().push(before.last().push(text.last()))
        }
    }
}

/// Whether `line` ends in a carriage return.
pub open spec fn ends_with_cr(line: Seq<char>) -> bool {
    line.len() > 0 && line.last() == '\r'
}

/// `line` without one trailing carriage return, if it has one.
pub open spec fn strip_cr(line: Seq<char>) -> Seq<char> {
    if ends_with_cr(line) {
        line.drop_last()
    } else {
        line
    }
}

/// The pieces of a text that a newline ends, each without its trailing
/// carriage return.
pub open spec fn ended_lines(parts: Seq<Seq<char>>) -> Seq<Seq<char>> {
    Seq::new((parts.len() - 1) as nat, |i: int| strip_cr(parts[i]))
}

/// The lines of `text`: every piece that a newline ends, without the newline
/// and without a carriage return just before it, and then what follows the
/// last newline, as it stands, unless nothing follows it.
pub open spec fn lines_of(text: Seq<char>) -> Seq<Seq<char>> {
    let parts = pieces(text);
    if parts.last().len() == 0 {
        ended_lines(parts)
    } else {
        ended_lines(parts).push(parts.last())
    }
}

/// The lines joined by single newlines, with none after the last line.
pub open spec fn join(lines: Seq<Seq<char>>) -> Seq<char>
    decreases lines.len(),
{
    if lines.len() == 0 {
        Seq::<char>::empty()
    } else if lines.len() == 1 {
        lines[0]
    } else {
        join(lines.drop_last()).push('\n') + lines.last()
    }
}

/// Every line of `lines` with a newline after it, one after the other.
pub open spec fn terminated(lines: Seq<Seq<char>>) -> Seq<char>
    decreases lines.len(),
{
    if lines.len() == 0 {
        Seq::<char>::empty()
    } else {
        terminated(lines.drop_last()) + lines.last().push('\n')
    }
}

/// Splits `text` into its lines.
pub fn split_lines(text: &str) -> (lines: Vec<String>)
    ensures
        lines.deep_view() == lines_of(text@),
{
    let mut lines: Vec<String> = Vec::new();
    let mut current = String::new();
    // A carriage return that was read but not yet added to `current`: it is
    // dropped if a newline follows at once.
    let mut held_cr = false;
    for c in it: text.chars()
        invariant
            it.seq() == text@,
            pieces(text@.take(it.index() as int)).len() >= 1,
            lines.deep_view() == ended_lines(pieces(text@.take(it.index() as int))),
            pieces(text@.take(it.index() as int)).last() == if held_cr {
                current@.push('\r')
            } else {
                current@
            },
            !held_cr ==> !ends_with_cr(current@),
    {
        let ghost seen = text@.take(it.index() as int);
        let ghost next = text@.take(it.index() + 1);
        proof {
            assert(next.drop_last() == seen);
            assert(next.last() == c);
        }
        if c == '\n' {
            proof {
                assert(pieces(next) == pieces(seen).push(Seq::<char>::empty()));
                assert(current@.push('\r').drop_last() == current@);
                assert(strip_cr(pieces(seen).last()) == current@);
                assert(ended_lines(pieces(next)) =~= ended_lines(pieces(seen)).push(current@));
            }
            lines.push(current);
            current = String::new();
            held_cr = false;
        } else if c == '\r' {
            if held_cr {
                current.push('\r');
            }
            held_cr = true;
        } else {
            if held_cr {
                current.push('\r');
            }
            current.push(c);
            held_cr = false;
        }
        proof {
            if c != '\n' {
                assert(ended_lines(pieces(next)) =~= ended_lines(pieces(seen)));
            }
        }
    }
    if held_cr {
        current.push('\r');
    }
    proof {
        assert(text@.take(text@.len() as int) == text@);
    }
    if !current.as_str().is_empty() {
        lines.push(current);
    }
    lines
}

/// Joins `lines` with single newlines.
pub fn join_lines(lines: &[String]) -> (text: String)
    ensures
        text@ == join(lines.deep_view()),
{
    let mut text = String::new();
    let mut i: usize = 0;
    while i < lines.len()
        invariant
            i <= lines.len(),
            text@ == join(lines.deep_view().take(i as int)),
        decreases lines.len() - i,
    {
        proof {
            let done = lines.deep_view().take(i as int);
            let more = lines.deep_view().take(i + 1);
            assert(more.drop_last() == done);
            assert(more.last() == lines[i as int]@);
        }
        if i > 0 {
            text.push('\n');
        }
        text.append(lines[i].as_str());
        i += 1;
    }
    proof {
        assert(lines.deep_view().take(lines.len() as int) == lines.deep_view());
    }
    text
}

/// Puts a newline after every line of `lines` and strings them together.
pub fn terminate_lines(lines: &[String]) -> (text: String)
    ensures
        text@ == terminated(lines.deep_view()),
{
    let mut text = String::new();
    let mut i: usize = 0;
    while i < lines.len()
        invariant
            i <= lines.len(),
            text@ == terminated(lines.deep_view().take(i as int)),
        decreases lines.len() - i,
    {
        proof {
            let done = lines.deep_view().take(i as int);
            let more = lines.deep_view().take(i + 1);
            assert(more.drop_last() == done);
            assert(more.last() == lines[i as int]@);
        }
        text.append(lines[i].as_str());
        text.push('\n');
        i += 1;
    }
    proof {
        assert(lines.deep_view().take(lines.len() as int) == lines.deep_view());
    }
    text
}

} // verus!
