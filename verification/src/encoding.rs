//! Facts about text stored as UTF-8: how the bytes of a text relate to its
//! characters where ASCII characters are concerned.

use vstd::prelude::*;
use vstd::utf8::{
    char_is_scalar, encode_scalar, encode_utf8, has_width_1_encoding, last_continuation_byte,
    leading_byte_width_1, leading_byte_width_2, leading_byte_width_3, leading_byte_width_4,
    second_last_continuation_byte, third_last_continuation_byte,
};

verus! {

/// Whether `c` is an ASCII character, stored as the one byte of its number.
pub open spec fn is_ascii_char(c: char) -> bool {
    '\0' <= c <= '\u{7f}'
}

/// A number up to 0x7f is stored as the byte of that number.
proof fn lemma_width_1_byte(scalar: u32)
    by (bit_vector)
    requires
        has_width_1_encoding(scalar),
    ensures
        leading_byte_width_1(scalar) == scalar as u8,
        scalar as u8 <= 0x7f,
{
}

/// Every byte of an encoding of two or more bytes has its top bit set.
proof fn lemma_wider_bytes(scalar: u32)
    by (bit_vector)
    ensures
        leading_byte_width_2(scalar) >= 0x80,
        leading_byte_width_3(scalar) >= 0x80,
        leading_byte_width_4(scalar) >= 0x80,
        last_continuation_byte(scalar) >= 0x80,
        second_last_continuation_byte(scalar) >= 0x80,
        third_last_continuation_byte(scalar) >= 0x80,
{
}

/// The bytes of one character: an ASCII character is stored as the single
/// byte of its number, any other as two to four bytes that are no ASCII bytes.
pub proof fn lemma_character_bytes(c: char)
    ensures
        encode_scalar(c as u32).len() >= 1,
        is_ascii_char(c) ==> encode_scalar(c as u32) == seq![c as u8],
        !is_ascii_char(c) ==> forall|i: int|
            0 <= i < encode_scalar(c as u32).len() ==> #[trigger] encode_scalar(c as u32)[i]
                >= 0x80,
{
    let scalar = c as u32;
    char_is_scalar(c);
    lemma_wider_bytes(scalar);
    if has_width_1_encoding(scalar) {
        lemma_width_1_byte(scalar);
    }
}

/// The bytes of two texts put together are the bytes of the first followed by
/// the bytes of the second.
pub proof fn lemma_bytes_of_concat(a: Seq<char>, b: Seq<char>)
    ensures
        encode_utf8(a + b) == encode_utf8(a) + encode_utf8(b),
    decreases a.len(),
{
    if a.len() > 0 {
        lemma_bytes_of_concat(a.drop_first(), b);
        assert((a + b).drop_first() == a.drop_first() + b);
    }
}

/// The bytes of a text of one character are the bytes of that character.
pub proof fn lemma_bytes_of_one(c: char)
    ensures
        encode_utf8(seq![c]) == encode_scalar(c as u32),
{
    assert(seq![c].drop_first() == Seq::<char>::empty());
    assert(encode_utf8(seq![c]) == encode_scalar(c as u32) + encode_utf8(Seq::<char>::empty()));
}

/// The bytes of a text of one ASCII character.
pub proof fn lemma_bytes_of_ascii(c: char)
    requires
        is_ascii_char(c),
    ensures
        encode_utf8(seq![c]) == seq![c as u8],
{
    lemma_character_bytes(c);
    lemma_bytes_of_one(c);
}

/// An ASCII character that does not occur in a text leaves its byte out of the
/// text's bytes.
pub proof fn lemma_absent_ascii(text: Seq<char>, c: char)
    requires
        is_ascii_char(c),
        forall|i: int| 0 <= i < text.len() ==> text[i] != c,
    ensures
        forall|i: int| 0 <= i < encode_utf8(text).len() ==> encode_utf8(text)[i] != c as u8,
    decreases text.len(),
{
    if text.len() > 0 {
        lemma_character_bytes(text[0]);
        lemma_absent_ascii(text.drop_first(), c);
        let first = encode_scalar(text[0] as u32);
        let rest = encode_utf8(text.drop_first());
        assert forall|i: int| 0 <= i < encode_utf8(text).len() implies encode_utf8(text)[i]
            != c as u8 by {
            if i >= first.len() {
                assert(encode_utf8(text)[i] == rest[i - first.len()]);
            }
        }
    }
}

/// An ASCII character that occurs in a text puts its byte among the text's
/// bytes.
pub proof fn lemma_present_ascii(text: Seq<char>, c: char, at: int)
    requires
        is_ascii_char(c),
        0 <= at < text.len(),
        text[at] == c,
    ensures
        exists|i: int| 0 <= i < encode_utf8(text).len() && encode_utf8(text)[i] == c as u8,
{
    let before = text.take(at);
    let after = text.skip(at + 1);
    assert(text == before + seq![c] + after);
    lemma_bytes_of_concat(before + seq![c], after);
    lemma_bytes_of_concat(before, seq![c]);
    lemma_bytes_of_ascii(c);
    assert(encode_utf8(text)[encode_utf8(before).len() as int] == c as u8);
}

/// A text that does not end in a given ASCII character has bytes that do not
/// end in that character's byte.
pub proof fn lemma_last_byte(text: Seq<char>, c: char)
    requires
        is_ascii_char(c),
        text.len() > 0,
        text.last() != c,
    ensures
        encode_utf8(text).len() > 0,
        encode_utf8(text).last() != c as u8,
{
    let last = text.last();
    assert(text == text.drop_last() + seq![last]);
    lemma_bytes_of_concat(text.drop_last(), seq![last]);
    lemma_bytes_of_one(last);
    lemma_character_bytes(last);
}

} // verus!
