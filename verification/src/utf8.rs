//! How the characters of a text lie in its UTF-8 encoding: the byte offset of
//! each character, the byte that leads its encoding, and how a slice of the
//! bytes between two such offsets reads as characters.

use vstd::prelude::*;
use vstd::utf8::*;

verus! {

/// The number of bytes in the UTF-8 encoding of `c`.
pub open spec fn width(c: char) -> int {
    encode_scalar(c as u32).len() as int
}

/// The first byte of the UTF-8 encoding of `c`.
pub open spec fn lead(c: char) -> u8 {
    encode_scalar(c as u32)[0]
}

/// The length of an encoding as its first byte tells it.
pub open spec fn lead_width(byte: u8) -> int {
    if byte < 0x80 {
        1
    } else if byte < 0xe0 {
        2
    } else if byte < 0xf0 {
        3
    } else {
        4
    }
}

/// The byte offset at which the character with index `i` starts in the
/// encoding of `text`; for `i == text.len()`, the length of the encoding.
pub open spec fn offset(text: Seq<char>, i: int) -> int {
    encode_utf8(text.subrange(0, i)).len() as int
}

/// An ASCII character is encoded as itself; any other character starts
/// with a byte of 0xc0 or more. Either way the first byte tells how long the
/// encoding is.
pub broadcast proof fn lemma_lead(c: char)
    ensures
        #![trigger lead(c)]
        1 <= width(c) <= 4,
        width(c) == lead_width(lead(c)),
        lead(c) < 0x80 ==> c == lead(c) as char,
        lead(c) < 0x80 || lead(c) >= 0xc0,
        (c as u32) < 0x80 <==> lead(c) < 0x80,
{
    let v = c as u32;
    char_is_scalar(c);
    if has_width_1_encoding(v) {
        assert(((v & 0x7f) as u8) == (v as u8) && ((v & 0x7f) as u8) < 0x80u8) by (bit_vector)
            requires
                v <= 0x7f,
        ;
    } else if has_width_2_encoding(v) {
        let b = 0xc0u8 | ((v >> 6) & 0x1f) as u8;
        assert(0xc0 <= b < 0xe0) by (bit_vector)
            requires
                b == 0xc0u8 | ((v >> 6) & 0x1f) as u8,
        ;
    } else if has_width_3_encoding(v) {
        let b = 0xe0u8 | ((v >> 12) & 0x0f) as u8;
        assert(0xe0 <= b < 0xf0) by (bit_vector)
            requires
                b == 0xe0u8 | ((v >> 12) & 0x0f) as u8,
        ;
    } else {
        let b = 0xf0u8 | ((v >> 18) & 0x7) as u8;
        assert(0xf0 <= b) by (bit_vector)
            requires
                b == 0xf0u8 | ((v >> 18) & 0x7) as u8,
        ;
    }
}

/// The encoding of two texts in a row is the two encodings in a row.
pub proof fn lemma_encode_concat(a: Seq<char>, b: Seq<char>)
    ensures
        encode_utf8(a + b) == encode_utf8(a) + encode_utf8(b),
    decreases a.len(),
{
    if a.len() == 0 {
    } else {
        lemma_encode_concat(a.drop_first(), b);
        assert((a + b).drop_first() =~= a.drop_first() + b);
    }
}

/// The encoding of the characters from `from` up to `to` is the part of the
/// whole encoding between the offsets of the two.
pub proof fn lemma_encode_subrange(text: Seq<char>, from: int, to: int)
    requires
        0 <= from <= to <= text.len(),
    ensures
        0 <= offset(text, from) <= offset(text, to) <= encode_utf8(text).len(),
        offset(text, text.len() as int) == encode_utf8(text).len(),
        encode_utf8(text.subrange(from, to)) == encode_utf8(text).subrange(
            offset(text, from),
            offset(text, to),
        ),
{
    let head = text.subrange(0, from);
    let body = text.subrange(from, to);
    let tail = text.subrange(to, text.len() as int);
    assert(text.subrange(0, to) =~= head + body);
    assert(text =~= text.subrange(0, to) + tail);
    assert(text.subrange(0, text.len() as int) =~= text);
    lemma_encode_concat(head, body);
    lemma_encode_concat(text.subrange(0, to), tail);
}

/// The character with index `i` starts at its offset with its leading byte,
/// and the next character starts right after its encoding.
pub proof fn lemma_offset_step(text: Seq<char>, i: int)
    requires
        0 <= i < text.len(),
    ensures
        0 <= offset(text, i) < encode_utf8(text).len(),
        encode_utf8(text)[offset(text, i)] == lead(text[i]),
        offset(text, i + 1) == offset(text, i) + width(text[i]),
        offset(text, i + 1) <= encode_utf8(text).len(),
{
    lemma_encode_subrange(text, i, i + 1);
    lemma_lead(text[i]);
    assert(encode_utf8(text.subrange(i, i + 1)) =~= encode_scalar(text[i] as u32)) by {
        reveal_with_fuel(encode_utf8, 2);
    }
}

/// The offset of a character is a character boundary of the encoding.
pub proof fn lemma_offset_boundary(text: Seq<char>, i: int)
    requires
        0 <= i <= text.len(),
    ensures
        is_char_boundary(encode_utf8(text), offset(text, i)),
    decreases i,
{
    let bytes = encode_utf8(text);
    encode_utf8_valid_utf8(text);
    if i > 0 {
        let rest = text.drop_first();
        encode_utf8_first_scalar(text);
        assert(pop_first_scalar(bytes) =~= encode_utf8(rest));
        lemma_offset_boundary(rest, i - 1);
        assert(text.subrange(0, i) =~= seq![text[0]] + rest.subrange(0, i - 1));
        lemma_encode_concat(seq![text[0]], rest.subrange(0, i - 1));
        assert(encode_utf8(seq![text[0]]) =~= encode_scalar(text[0] as u32)) by {
            reveal_with_fuel(encode_utf8, 2);
        }
        lemma_lead(text[0]);
        lemma_encode_subrange(text, 0, i);
    }
}

/// A text is known by its encoding.
pub proof fn lemma_encode_injective(a: Seq<char>, b: Seq<char>)
    requires
        encode_utf8(a) == encode_utf8(b),
    ensures
        a == b,
{
    encode_utf8_decode_utf8(a);
    encode_utf8_decode_utf8(b);
}

/// The length of an encoding, read off its first byte.
pub(crate) fn lead_width_of(byte: u8) -> (n: usize)
    ensures
        n == lead_width(byte),
{
    if byte < 0x80 {
        1
    } else if byte < 0xe0 {
        2
    } else if byte < 0xf0 {
        3
    } else {
        4
    }
}

/// The characters of `text` from index `i` up to index `j`, which lie
/// between the byte offsets `from` and `to`.
pub(crate) fn slice<'a>(
    text: &'a str,
    from: usize,
    to: usize,
    Ghost(i): Ghost<int>,
    Ghost(j): Ghost<int>,
) -> (part: &'a str)
    requires
        0 <= i <= j <= text@.len(),
        from == offset(text@, i),
        to == offset(text@, j),
    ensures
        part@ == text@.subrange(i, j),
{
    proof {
        lemma_offset_boundary(text@, j);
        lemma_encode_subrange(text@, 0, j);
    }
    let (head, _) = text.split_at(to);
    proof {
        lemma_encode_injective(head@, text@.subrange(0, j));
        assert(head@.subrange(0, i) =~= text@.subrange(0, i));
        lemma_offset_boundary(head@, i);
        lemma_encode_subrange(head@, i, j);
    }
    let (_, part) = head.split_at(from);
    proof {
        lemma_encode_injective(part@, head@.subrange(i, j));
    }
    part
}

} // verus!
