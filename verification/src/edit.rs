//! Edits of a sequence of lines by line number. Lines are numbered from 1.

use vstd::prelude::*;

verus! {

/// `lines`, followed by as many empty lines as it takes to reach `len` lines.
/// A sequence that is long enough already stays as it is.
pub open spec fn pad_to(lines: Seq<Seq<char>>, len: nat) -> Seq<Seq<char>> {
    if lines.len() >= len {
        lines
    } else {
        lines + Seq::new((len - lines.len()) as nat, |i: int| Seq::<char>::empty())
    }
}

/// `lines` with line `n` (counted from 1) set to `content`, padded with empty
/// lines first where `n` lies beyond the end.
pub open spec fn with_line(lines: Seq<Seq<char>>, n: nat, content: Seq<char>) -> Seq<Seq<char>>
    recommends
        n >= 1,
{
    pad_to(lines, n).update(n - 1, content)
}

/// `lines` with `new_lines` inserted, in order, before the line that stood at
/// position `n` (counted from 1). Where `n` lies more than one beyond the
/// end, empty lines fill the gap.
pub open spec fn with_inserted(
    lines: Seq<Seq<char>>,
    n: nat,
    new_lines: Seq<Seq<char>>,
) -> Seq<Seq<char>>
    recommends
        n >= 1,
{
    let padded = pad_to(lines, (n - 1) as nat);
    padded.subrange(0, n - 1) + new_lines + padded.subrange(n - 1, padded.len() as int)
}

/// The lesser of two numbers.
pub open spec fn lesser(a: nat, b: nat) -> nat {
    if a <= b {
        a
    } else {
        b
    }
}

/// The greater of two numbers.
pub open spec fn greater(a: nat, b: nat) -> nat {
    if a <= b {
        b
    } else {
        a
    }
}

/// `lines` without the lines numbered from `start` to `end`, both counted
/// from 1 and included, in either order. Numbers beyond the end remove
/// nothing.
pub open spec fn without_range(lines: Seq<Seq<char>>, start: nat, end: nat) -> Seq<Seq<char>>
    recommends
        start >= 1,
        end >= 1,
{
    let first: nat = lesser(start, end);
    let last: nat = greater(start, end);
    if first > lines.len() {
        lines
    } else {
        lines.subrange(0, first - 1) + lines.subrange(
            lesser(last, lines.len()) as int,
            lines.len() as int,
        )
    }
}

/// The lines numbered from `start` to `end`, both counted from 1 and
/// included, in either order, as far as `lines` has them.
pub open spec fn range_of(lines: Seq<Seq<char>>, start: nat, end: nat) -> Seq<Seq<char>>
    recommends
        start >= 1,
        end >= 1,
{
    let first: nat = lesser(start, end);
    let last: nat = greater(start, end);
    lines.subrange(
        lesser((first - 1) as nat, lines.len()) as int,
        lesser(last, lines.len()) as int,
    )
}

/// What `with_line` holds: `content` as line `n`, the lines of `lines`
/// everywhere else, and empty lines where `lines` had none.
pub proof fn lemma_with_line(lines: Seq<Seq<char>>, n: nat, content: Seq<char>)
    requires
        n >= 1,
    ensures
        with_line(lines, n, content).len() == greater(lines.len(), n),
        with_line(lines, n, content)[n - 1] == content,
        forall|i: int|
            0 <= i < lines.len() && i != n - 1 ==> #[trigger] with_line(lines, n, content)[i]
                == lines[i],
        forall|i: int|
            lines.len() <= i < n - 1 ==> #[trigger] with_line(lines, n, content)[i].len() == 0,
{
}

/// What `with_inserted` holds: the lines of `lines` before position `n`,
/// with empty lines where `lines` had none; then `new_lines`; then the
/// lines of `lines` from position `n` on, each moved down by the number of
/// new lines.
pub proof fn lemma_with_inserted(lines: Seq<Seq<char>>, n: nat, new_lines: Seq<Seq<char>>)
    requires
        n >= 1,
    ensures
        with_inserted(lines, n, new_lines).len() == greater(lines.len(), (n - 1) as nat)
            + new_lines.len(),
        forall|i: int|
            0 <= i < n - 1 && i < lines.len() ==> #[trigger] with_inserted(lines, n, new_lines)[i]
                == lines[i],
        forall|i: int|
            lines.len() <= i < n - 1 ==> #[trigger] with_inserted(lines, n, new_lines)[i].len()
                == 0,
        forall|j: int|
            0 <= j < new_lines.len() ==> with_inserted(lines, n, new_lines)[n - 1 + j]
                == #[trigger] new_lines[j],
        forall|i: int|
            n - 1 <= i < lines.len() ==> with_inserted(lines, n, new_lines)[i + new_lines.len()]
                == #[trigger] lines[i],
{
}

/// What `without_range` holds: the lines of `lines` before the range, and
/// those after it, moved up by the number of lines removed. At least one
/// line is removed where the range starts within `lines`.
pub proof fn lemma_without_range(lines: Seq<Seq<char>>, start: nat, end: nat)
    requires
        start >= 1,
        end >= 1,
    ensures
        ({
            let first: nat = lesser(start, end);
            let stop: nat = lesser(greater(start, end), lines.len());
            let removed: int = if first <= lines.len() {
                stop - (first - 1)
            } else {
                0
            };
            &&& first <= lines.len() ==> removed >= 1
            &&& without_range(lines, start, end).len() == lines.len() - removed
            &&& forall|i: int|
                0 <= i < first - 1 && i < lines.len() ==> #[trigger] without_range(
                    lines,
                    start,
                    end,
                )[i] == lines[i]
            &&& forall|i: int|
                first <= lines.len() && stop <= i < lines.len() ==> without_range(
                    lines,
                    start,
                    end,
                )[i - removed] == #[trigger] lines[i]
        }),
{
}

/// What `range_of` holds: the lines of `lines` from the lesser of `start`
/// and `end` to the greater, as far as `lines` has them.
pub proof fn lemma_range_of(lines: Seq<Seq<char>>, start: nat, end: nat)
    requires
        start >= 1,
        end >= 1,
    ensures
        ({
            let first: nat = lesser(start, end);
            let stop: nat = lesser(greater(start, end), lines.len());
            &&& first <= lines.len() ==> range_of(lines, start, end).len() == stop - (first - 1)
            &&& first > lines.len() ==> range_of(lines, start, end).len() == 0
            &&& forall|j: int|
                0 <= j < range_of(lines, start, end).len() ==> #[trigger] range_of(
                    lines,
                    start,
                    end,
                )[j] == lines[first - 1 + j]
        }),
{
}

/// Appends empty lines until `lines` holds at least `len` lines.
pub(crate) fn pad_lines(lines: &mut Vec<String>, len: usize)
    ensures
        final(lines).deep_view() == pad_to(old(lines).deep_view(), len as nat),
{
    while lines.len() < len
        invariant
            old(lines).len() <= lines.len(),
            lines.len() <= len || lines.len() == old(lines).len(),
            lines.deep_view() == old(lines).deep_view() + Seq::new(
                (lines.len() - old(lines).len()) as nat,
                |i: int| Seq::<char>::empty(),
            ),
        decreases len - lines.len(),
    {
        let ghost before = lines.deep_view();
        lines.push(String::new());
        proof {
            assert(lines.deep_view() =~= before.push(Seq::<char>::empty()));
        }
    }
    proof {
        if old(lines).len() >= len {
            assert(lines.deep_view() == old(lines).deep_view());
        }
    }
}

/// Sets line `line_number` to `content`, after padding with empty lines
/// where the line lies beyond the end.
pub(crate) fn set_line(lines: &mut Vec<String>, line_number: usize, content: &str)
    requires
        line_number >= 1,
    ensures
        final(lines).deep_view() == with_line(
            old(lines).deep_view(),
            line_number as nat,
            content@,
        ),
{
    pad_lines(lines, line_number);
    let ghost padded = lines.deep_view();
    proof {
        assert(padded.len() == lines.len());
    }
    lines[line_number - 1] = content.to_owned();
    proof {
        assert(lines.deep_view() =~= padded.update(line_number - 1, content@));
    }
}

/// Inserts `new_lines` before the line at `line_number`, after padding with
/// empty lines where that position lies beyond the end.
pub(crate) fn insert_at(lines: &mut Vec<String>, line_number: usize, new_lines: &[String])
    requires
        line_number >= 1,
    ensures
        final(lines).deep_view() == with_inserted(
            old(lines).deep_view(),
            line_number as nat,
            new_lines.deep_view(),
        ),
{
    pad_lines(lines, line_number - 1);
    let ghost padded = lines.deep_view();
    proof {
        assert(padded.len() == lines.len());
    }
    let mut tail = lines.split_off(line_number - 1);
    proof {
        assert(lines.deep_view() =~= padded.subrange(0, line_number - 1));
        assert(tail.deep_view() =~= padded.subrange(line_number - 1, padded.len() as int));
    }
    let mut i: usize = 0;
    while i < new_lines.len()
        invariant
            i <= new_lines.len(),
            lines.deep_view() == padded.subrange(0, line_number - 1) + new_lines.deep_view().take(
                i as int,
            ),
        decreases new_lines.len() - i,
    {
        let ghost before = lines.deep_view();
        lines.push(new_lines[i].clone());
        proof {
            assert(lines.deep_view() =~= before.push(new_lines[i as int]@));
            assert(new_lines.deep_view().take(i + 1) =~= new_lines.deep_view().take(i as int).push(
                new_lines[i as int]@,
            ));
        }
        i += 1;
    }
    let ghost head = lines.deep_view();
    lines.append(&mut tail);
    proof {
        assert(new_lines.deep_view().take(new_lines.len() as int) == new_lines.deep_view());
        assert(lines.deep_view() =~= head + padded.subrange(
            line_number - 1,
            padded.len() as int,
        ));
    }
}

/// Removes the lines numbered from `start` to `end`, in either order, as far
/// as `lines` has them.
pub(crate) fn remove_range(lines: &mut Vec<String>, start: usize, end: usize)
    requires
        start >= 1,
        end >= 1,
    ensures
        final(lines).deep_view() == without_range(
            old(lines).deep_view(),
            start as nat,
            end as nat,
        ),
{
    let first: usize = if start <= end { start } else { end };
    let last: usize = if start <= end { end } else { start };
    if first <= lines.len() {
        let stop: usize = if last <= lines.len() { last } else { lines.len() };
        let ghost all = lines.deep_view();
        proof {
            assert(all.len() == lines.len());
        }
        let mut tail = lines.split_off(stop);
        lines.truncate(first - 1);
        let ghost head = lines.deep_view();
        proof {
            assert(tail.deep_view() =~= all.subrange(stop as int, all.len() as int));
            assert(head =~= all.subrange(0, first - 1));
        }
        lines.append(&mut tail);
        proof {
            assert(lines.deep_view() =~= head + all.subrange(stop as int, all.len() as int));
        }
    }
}

/// Keeps the lines numbered from `start` to `end`, in either order, as far
/// as `lines` has them.
pub(crate) fn take_range(lines: Vec<String>, start: usize, end: usize) -> (range: Vec<String>)
    requires
        start >= 1,
        end >= 1,
    ensures
        range.deep_view() == range_of(lines.deep_view(), start as nat, end as nat),
{
    let mut lines = lines;
    let ghost all = lines.deep_view();
    let first: usize = if start <= end { start } else { end };
    let last: usize = if start <= end { end } else { start };
    let from: usize = if first - 1 <= lines.len() { first - 1 } else { lines.len() };
    let stop: usize = if last <= lines.len() { last } else { lines.len() };
    proof {
        assert(all.len() == lines.len());
    }
    lines.truncate(stop);
    let range = lines.split_off(from);
    proof {
        assert(range.deep_view() =~= all.subrange(from as int, stop as int));
    }
    range
}

} // verus!
