//! Trimming of white space and replacement of one piece of a text by
//! another.

use vstd::prelude::*;

verus! {

/// Whether `c` is white space: the code points that Unicode gives the
/// property `White_Space`.
pub open spec fn is_whitespace(c: char) -> bool {
    let u: u32 = c as u32;
    ||| 0x09 <= u <= 0x0D
    ||| u == 0x20
    ||| u == 0x85
    ||| u == 0xA0
    ||| u == 0x1680
    ||| 0x2000 <= u <= 0x200A
    ||| u == 0x2028
    ||| u == 0x2029
    ||| u == 0x202F
    ||| u == 0x205F
    ||| u == 0x3000
}

/// `text` without the white space at its start.
pub open spec fn trim_start(text: Seq<char>) -> Seq<char>
    decreases text.len(),
{
    if text.len() > 0 && is_whitespace(text.first()) {
        trim_start(text.drop_first())
    } else {
        text
    }
}

/// `text` without the white space at its end.
pub open spec fn trim_end(text: Seq<char>) -> Seq<char>
    decreases text.len(),
{
    if text.len() > 0 && is_whitespace(text.last()) {
        trim_end(text.drop_last())
    } else {
        text
    }
}

/// `text` without the white space at its start and at its end.
pub open spec fn trimmed(text: Seq<char>) -> Seq<char> {
    trim_end(trim_start(text))
}

/// The lines of `lines`, each trimmed, without those that are then empty.
pub open spec fn non_blank(lines: Seq<Seq<char>>) -> Seq<Seq<char>>
    decreases lines.len(),
{
    if lines.len() == 0 {
        Seq::<Seq<char>>::empty()
    } else if trimmed(lines.last()).len() == 0 {
        non_blank(lines.drop_last())
    } else {
        non_blank(lines.drop_last()).push(trimmed(lines.last()))
    }
}

/// Whether `text` begins with `prefix`.
pub open spec fn starts_with(text: Seq<char>, prefix: Seq<char>) -> bool {
    prefix.len() <= text.len() && text.subrange(0, prefix.len() as int) == prefix
}

/// `text` with every occurrence of `find` replaced by `with`. Occurrences are
/// taken from left to right and do not overlap. An empty `find` occurs once
/// before every character and once at the end.
pub open spec fn replaced(text: Seq<char>, find: Seq<char>, with: Seq<char>) -> Seq<char>
    decreases text.len(),
{
    if find.len() == 0 {
        if text.len() == 0 {
            with
        } else {
            with.push(text.first()) + replaced(text.drop_first(), find, with)
        }
    } else if text.len() == 0 {
        text
    } else if starts_with(text, find) {
        with + replaced(text.skip(find.len() as int), find, with)
    } else {
        seq![text.first()] + replaced(text.drop_first(), find, with)
    }
}

/// What `trim_start` removes: white space and nothing else, from the start
/// up to the first character that is none.
pub proof fn lemma_trim_start(text: Seq<char>)
    ensures
        trim_start(text).len() <= text.len(),
        trim_start(text) == text.skip(text.len() - trim_start(text).len()),
        forall|i: int|
            0 <= i < text.len() - trim_start(text).len() ==> is_whitespace(#[trigger] text[i]),
        trim_start(text).len() > 0 ==> !is_whitespace(trim_start(text).first()),
    decreases text.len(),
{
    if text.len() > 0 && is_whitespace(text.first()) {
        let rest = text.drop_first();
        lemma_trim_start(rest);
        let cut: int = rest.len() - trim_start(rest).len();
        assert(rest.skip(cut) == text.skip(cut + 1));
        assert forall|i: int| 0 <= i < cut + 1 implies is_whitespace(#[trigger] text[i]) by {
            if i > 0 {
                assert(text[i] == rest[i - 1]);
            }
        }
    } else {
        assert(text.skip(0) == text);
    }
}

/// What `trim_end` removes: white space and nothing else, from the end back
/// to the last character that is none.
pub proof fn lemma_trim_end(text: Seq<char>)
    ensures
        trim_end(text).len() <= text.len(),
        trim_end(text) == text.take(trim_end(text).len() as int),
        forall|i: int| trim_end(text).len() <= i < text.len() ==> is_whitespace(#[trigger] text[i]),
        trim_end(text).len() > 0 ==> !is_whitespace(trim_end(text).last()),
    decreases text.len(),
{
    if text.len() > 0 && is_whitespace(text.last()) {
        let rest = text.drop_last();
        lemma_trim_end(rest);
        assert(rest.take(trim_end(rest).len() as int) == text.take(trim_end(rest).len() as int));
        assert forall|i: int| trim_end(rest).len() <= i < text.len() implies is_whitespace(
            #[trigger] text[i],
        ) by {
            if i < rest.len() {
                assert(text[i] == rest[i]);
            }
        }
    } else {
        assert(text.take(text.len() as int) == text);
    }
}

/// What `trimmed` keeps: the part of `text` from its first character that
/// is no white space to its last; nothing, where all of `text` is white
/// space.
pub proof fn lemma_trimmed(text: Seq<char>)
    ensures
        ({
            let from: int = text.len() - trim_start(text).len();
            let to: int = from + trimmed(text).len();
            &&& 0 <= from <= to <= text.len()
            &&& trimmed(text) == text.subrange(from, to)
            &&& forall|i: int| 0 <= i < from ==> is_whitespace(#[trigger] text[i])
            &&& forall|i: int| to <= i < text.len() ==> is_whitespace(#[trigger] text[i])
            &&& from < to ==> !is_whitespace(text[from]) && !is_whitespace(text[to - 1])
        }),
{
    let rest = trim_start(text);
    let from: int = text.len() - rest.len();
    let to: int = from + trimmed(text).len();
    lemma_trim_start(text);
    lemma_trim_end(rest);
    assert(rest.take(trimmed(text).len() as int) == text.subrange(from, to));
    assert forall|i: int| to <= i < text.len() implies is_whitespace(#[trigger] text[i]) by {
        assert(text[i] == rest[i - from]);
    }
    if from < to {
        assert(trimmed(text).first() == rest.first());
        assert(rest.first() == text[from]);
        assert(trimmed(text).last() == text[to - 1]);
    }
}

/// Replacing a piece of text by itself changes nothing.
pub proof fn lemma_replaced_by_itself(text: Seq<char>, find: Seq<char>)
    ensures
        replaced(text, find, find) == text,
    decreases text.len(),
{
    if find.len() == 0 {
        if text.len() > 0 {
            lemma_replaced_by_itself(text.drop_first(), find);
            assert(find.push(text.first()) + text.drop_first() == text);
        }
    } else if text.len() > 0 {
        if starts_with(text, find) {
            lemma_replaced_by_itself(text.skip(find.len() as int), find);
            assert(text.subrange(0, find.len() as int) + text.skip(find.len() as int) == text);
        } else {
            lemma_replaced_by_itself(text.drop_first(), find);
            assert(seq![text.first()] + text.drop_first() == text);
        }
    }
}

/// Whether `find` stands somewhere in `text`.
pub open spec fn occurs_in(find: Seq<char>, text: Seq<char>) -> bool {
    exists|i: int| 0 <= i <= text.len() && starts_with(#[trigger] text.skip(i), find)
}

/// A text in which `find` does not stand stays as it is.
pub proof fn lemma_replaced_without_occurrence(text: Seq<char>, find: Seq<char>, with: Seq<char>)
    requires
        !occurs_in(find, text),
    ensures
        replaced(text, find, with) == text,
    decreases text.len(),
{
    assert(text.skip(0) == text);
    assert(!starts_with(text.skip(0), find));
    assert(find.len() > 0) by {
        if find.len() == 0 {
            assert(text.subrange(0, 0) == find);
        }
    }
    if text.len() > 0 {
        let rest = text.drop_first();
        assert forall|i: int| 0 <= i <= rest.len() implies !starts_with(
            #[trigger] rest.skip(i),
            find,
        ) by {
            assert(rest.skip(i) == text.skip(i + 1));
        }
        lemma_replaced_without_occurrence(rest, find, with);
        assert(seq![text.first()] + rest == text);
    }
}

/// The characters of `text`, one by one.
pub(crate) fn to_chars(text: &str) -> (chars: Vec<char>)
    ensures
        chars@ == text@,
{
    let mut chars: Vec<char> = Vec::new();
    for c in it: text.chars()
        invariant
            it.seq() == text@,
            chars@ == text@.take(it.index() as int),
    {
        chars.push(c);
    }
    chars
}

/// Whether `c` is white space.
pub fn is_space(c: char) -> (r: bool)
    ensures
        r == is_whitespace(c),
{
    let u: u32 = c as u32;
    (0x09 <= u && u <= 0x0D) || u == 0x20 || u == 0x85 || u == 0xA0 || u == 0x1680 || (0x2000 <= u
        && u <= 0x200A) || u == 0x2028 || u == 0x2029 || u == 0x202F || u == 0x205F || u == 0x3000
}

/// `text` without the white space at its start and at its end.
pub fn trim(text: &str) -> (out: String)
    ensures
        out@ == trimmed(text@),
{
    let chars = to_chars(text);
    let mut start: usize = 0;
    proof {
        assert(chars@.skip(0) == chars@);
    }
    while start < chars.len() && is_space(chars[start])
        invariant
            start <= chars.len(),
            trim_start(chars@) == trim_start(chars@.skip(start as int)),
        decreases chars.len() - start,
    {
        proof {
            assert(chars@.skip(start as int).drop_first() == chars@.skip(start + 1));
        }
        start += 1;
    }
    let mut end: usize = chars.len();
    while end > start && is_space(chars[end - 1])
        invariant
            start <= end <= chars.len(),
            trim_end(chars@.skip(start as int)) == trim_end(chars@.subrange(start as int, end as int)),
        decreases end - start,
    {
        proof {
            assert(chars@.subrange(start as int, end as int).drop_last() == chars@.subrange(
                start as int,
                end - 1,
            ));
        }
        end -= 1;
    }
    proof {
        assert(chars@.skip(start as int) == chars@.subrange(start as int, chars.len() as int));
    }
    let mut out = String::new();
    let mut i: usize = start;
    while i < end
        invariant
            start <= i <= end <= chars.len(),
            out@ == chars@.subrange(start as int, i as int),
        decreases end - i,
    {
        out.push(chars[i]);
        i += 1;
    }
    out
}

/// Trims every line of `lines` and keeps those that are not empty then.
pub fn trim_non_blank(lines: &[String]) -> (kept: Vec<String>)
    ensures
        kept.deep_view() == non_blank(lines.deep_view()),
{
    let mut kept: Vec<String> = Vec::new();
    let mut i: usize = 0;
    proof {
        assert(kept.deep_view() =~= Seq::<Seq<char>>::empty());
    }
    while i < lines.len()
        invariant
            i <= lines.len(),
            kept.deep_view() == non_blank(lines.deep_view().take(i as int)),
        decreases lines.len() - i,
    {
        proof {
            let done = lines.deep_view().take(i as int);
            let more = lines.deep_view().take(i + 1);
            assert(more.drop_last() == done);
            assert(more.last() == lines[i as int]@);
        }
        let line = trim(lines[i].as_str());
        if !line.as_str().is_empty() {
            let ghost before = kept.deep_view();
            kept.push(line);
            proof {
                assert(kept.deep_view() =~= before.push(line@));
            }
        }
        i += 1;
    }
    proof {
        assert(lines.deep_view().take(lines.len() as int) == lines.deep_view());
    }
    kept
}

/// Whether `pattern` stands in `text` at position `at`.
fn matches_at(text: &Vec<char>, at: usize, pattern: &Vec<char>) -> (r: bool)
    requires
        at <= text.len(),
    ensures
        r == starts_with(text@.skip(at as int), pattern@),
{
    if pattern.len() > text.len() - at {
        return false;
    }
    let mut k: usize = 0;
    while k < pattern.len()
        invariant
            at <= text.len(),
            pattern.len() <= text.len() - at,
            k <= pattern.len(),
            forall|j: int| 0 <= j < k ==> text@[at + j] == pattern@[j],
        decreases pattern.len() - k,
    {
        if text[at + k] != pattern[k] {
            proof {
                assert(text@.skip(at as int).subrange(0, pattern.len() as int)[k as int]
                    != pattern@[k as int]);
            }
            return false;
        }
        k += 1;
    }
    proof {
        assert(text@.skip(at as int).subrange(0, pattern.len() as int) =~= pattern@);
    }
    true
}

/// `text` with every occurrence of `find` replaced by `with`.
pub fn replace_all(text: &str, find: &str, with: &str) -> (out: String)
    ensures
        out@ == replaced(text@, find@, with@),
{
    let chars = to_chars(text);
    let pattern = to_chars(find);
    let mut out = String::new();
    let mut i: usize = 0;
    proof {
        assert(chars@.skip(0) == chars@);
    }
    while i < chars.len()
        invariant
            i <= chars.len(),
            chars@ == text@,
            pattern@ == find@,
            out@ + replaced(chars@.skip(i as int), find@, with@) == replaced(
                text@,
                find@,
                with@,
            ),
        decreases chars.len() - i,
    {
        let ghost rest = chars@.skip(i as int);
        proof {
            assert(rest.first() == chars@[i as int]);
            assert(rest.drop_first() == chars@.skip(i + 1));
        }
        if pattern.len() == 0 {
            out.append(with);
            out.push(chars[i]);
            i += 1;
        } else if matches_at(&chars, i, &pattern) {
            proof {
                assert(rest.skip(pattern.len() as int) == chars@.skip(i + pattern.len()));
            }
            out.append(with);
            i += pattern.len();
        } else {
            out.push(chars[i]);
            i += 1;
        }
    }
    if pattern.len() == 0 {
        out.append(with);
    }
    out
}

} // verus!
