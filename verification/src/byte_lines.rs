//! How the newlines of a text show in its bytes.

use crate::lines::{lines_of, pieces};
use crate::round_trip::lemma_last_piece;
use crate::source::newline_count;
use vstd::prelude::*;
use vstd::utf8::{encode_scalar, encode_utf8};

verus! {

/// How many characters of `text` are newlines.
pub open spec fn newline_chars(text: Seq<char>) -> nat
    decreases text.len(),
{
    if text.len() == 0 {
        0
    } else {
        newline_chars(text.drop_last()) + if text.last() == '\n' {
            1nat
        } else {
            0nat
        }
    }
}

/// A text has one piece more than it has newlines.
pub proof fn lemma_pieces_len(text: Seq<char>)
    ensures
        pieces(text).len() == newline_chars(text) + 1,
    decreases text.len(),
{
    if text.len() > 0 {
        lemma_pieces_len(text.drop_last());
    }
}

/// A text has one line for each of its newlines, and one more for what
/// follows the last newline, unless nothing follows it.
pub proof fn lemma_lines_len(text: Seq<char>)
    ensures
        lines_of(text).len() == newline_chars(text) + if text.len() > 0 && text.last() != '\n' {
            1nat
        } else {
            0nat
        },
{
    lemma_pieces_len(text);
    lemma_last_piece(text);
}

/// The newlines of two byte sequences add up.
pub proof fn lemma_newline_count_add(a: Seq<u8>, b: Seq<u8>)
    ensures
        newline_count(a + b) == newline_count(a) + newline_count(b),
    decreases b.len(),
{
    if b.len() == 0 {
        assert(a + b == a);
    } else {
        lemma_newline_count_add(a, b.drop_last());
        assert((a + b).drop_last() == a + b.drop_last());
    }
}

/// Bytes of which none is a newline hold no newline.
pub proof fn lemma_newline_count_none(bytes: Seq<u8>)
    requires
        forall|j: int| 0 <= j < bytes.len() ==> bytes[j] != 0x0A,
    ensures
        newline_count(bytes) == 0,
    decreases bytes.len(),
{
    if bytes.len() > 0 {
        lemma_newline_count_none(bytes.drop_last());
    }
}

/// A byte with its highest bit set is no newline.
proof fn lemma_byte_with_high_bit(low: u8)
    by (bit_vector)
    ensures
        0x80u8 | low != 0x0Au8,
        0xC0u8 | low != 0x0Au8,
        0xE0u8 | low != 0x0Au8,
        0xF0u8 | low != 0x0Au8,
{
}

/// The one byte that encodes a character below 0x80 is a newline exactly
/// if the character is.
proof fn lemma_single_byte(scalar: u32)
    by (bit_vector)
    requires
        scalar <= 0x7F,
    ensures
        ((scalar & 0x7F) as u8 == 0x0Au8) == (scalar == 0x0Au32),
{
}

/// The encoding of a character holds a newline byte only where the
/// character is a newline, which is encoded as that one byte.
pub proof fn lemma_newline_in_scalar(c: char)
    ensures
        encode_scalar(c as u32).len() >= 1,
        newline_count(encode_scalar(c as u32)) == if c == '\n' {
            1nat
        } else {
            0nat
        },
        encode_scalar(c as u32).last() == 0x0A <==> c == '\n',
{
    let scalar: u32 = c as u32;
    let bytes = encode_scalar(scalar);
    vstd::utf8::char_is_scalar(c);
    assert('\n' as u32 == 0x0A);
    if scalar <= 0x7F {
        lemma_single_byte(scalar);
        assert(bytes.drop_last() == Seq::<u8>::empty());
        assert(newline_count(bytes.drop_last()) == 0);
    } else {
        assert forall|j: int| 0 <= j < bytes.len() implies bytes[j] != 0x0A by {
            lemma_byte_with_high_bit(((scalar >> 6) & 0x1F) as u8);
            lemma_byte_with_high_bit(((scalar >> 12) & 0x0F) as u8);
            lemma_byte_with_high_bit(((scalar >> 18) & 0x7) as u8);
            lemma_byte_with_high_bit((scalar & 0x3F) as u8);
            lemma_byte_with_high_bit(((scalar >> 6) & 0x3F) as u8);
            lemma_byte_with_high_bit(((scalar >> 12) & 0x3F) as u8);
        }
        lemma_newline_count_none(bytes);
    }
}

/// Encoding a text with one more character adds the encoding of that
/// character.
pub proof fn lemma_encode_push(text: Seq<char>, c: char)
    ensures
        encode_utf8(text.push(c)) == encode_utf8(text) + encode_scalar(c as u32),
    decreases text.len(),
{
    let longer = text.push(c);
    if text.len() == 0 {
        assert(longer.drop_first() == Seq::<char>::empty());
        assert(encode_utf8(longer) == encode_scalar(c as u32) + encode_utf8(longer.drop_first()));
    } else {
        lemma_encode_push(text.drop_first(), c);
        assert(longer.drop_first() == text.drop_first().push(c));
    }
}

/// The bytes of a text hold as many newlines as the text, and end in one
/// exactly if the text does.
pub proof fn lemma_newlines_of_encoded(text: Seq<char>)
    ensures
        newline_count(encode_utf8(text)) == newline_chars(text),
        encode_utf8(text).len() > 0 <==> text.len() > 0,
        text.len() > 0 ==> (encode_utf8(text).last() == 0x0A <==> text.last() == '\n'),
    decreases text.len(),
{
    if text.len() > 0 {
        let shorter = text.drop_last();
        lemma_newlines_of_encoded(shorter);
        assert(shorter.push(text.last()) == text);
        lemma_encode_push(shorter, text.last());
        lemma_newline_in_scalar(text.last());
        lemma_newline_count_add(encode_utf8(shorter), encode_scalar(text.last() as u32));
    }
}

} // verus!
