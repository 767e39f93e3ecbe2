//! Lengths and boundaries of text in UTF-8 and UTF-16.

use vstd::prelude::*;
use vstd::utf8::*;

verus! {

/// The number of UTF-8 bytes of a text.
pub open spec fn byte_len(text: Seq<char>) -> nat {
    encode_utf8(text).len()
}

/// The number of UTF-16 code units of a character.
pub open spec fn utf16_width(c: char) -> nat {
    if (c as u32) < 0x1_0000 {
        1
    } else {
        2
    }
}

/// The number of UTF-16 code units of a text.
pub open spec fn utf16_len(text: Seq<char>) -> nat
    decreases text.len(),
{
    if text.len() == 0 {
        0
    } else {
        utf16_width(text[0]) + utf16_len(text.drop_first())
    }
}

/// The number of UTF-16 code units of `c`.
pub fn utf16_units(c: char) -> (r: u32)
    ensures
        r == utf16_width(c),
{
    if (c as u32) < 0x1_0000 {
        1
    } else {
        2
    }
}

/// The number of UTF-8 bytes of `c`.
pub fn utf8_bytes(c: char) -> (r: usize)
    ensures
        r == encode_scalar(c as u32).len(),
        1 <= r <= 4,
{
    let code: u32 = c as u32;
    if code <= 0x7f {
        1
    } else if code <= 0x7ff {
        2
    } else if code <= 0xffff {
        3
    } else {
        4
    }
}

/// Encoding a concatenation concatenates the encodings.
pub proof fn lemma_encode_concat(a: Seq<char>, b: Seq<char>)
    ensures
        encode_utf8(a + b) == encode_utf8(a) + encode_utf8(b),
    decreases a.len(),
{
    if a.len() == 0 {
        assert(a + b == b);
        assert(encode_utf8(a) + encode_utf8(b) == encode_utf8(b));
    } else {
        assert((a + b).drop_first() == a.drop_first() + b);
        lemma_encode_concat(a.drop_first(), b);
        assert(encode_utf8(a + b) == encode_utf8(a) + encode_utf8(b));
    }
}

/// Encoding one more character appends its bytes.
pub proof fn lemma_encode_push(a: Seq<char>, c: char)
    ensures
        encode_utf8(a.push(c)) == encode_utf8(a) + encode_scalar(c as u32),
{
    assert(a.push(c) == a + seq![c]);
    lemma_encode_concat(a, seq![c]);
    assert(seq![c].drop_first() == Seq::<char>::empty());
    assert(encode_utf8(seq![c].drop_first()) == Seq::<u8>::empty());
    assert(encode_utf8(seq![c]) == encode_scalar(c as u32));
}

/// A prefix of a text is no longer in bytes than the text.
pub proof fn lemma_prefix_byte_len(text: Seq<char>, i: int)
    requires
        0 <= i <= text.len(),
    ensures
        byte_len(text.take(i)) <= byte_len(text),
        encode_utf8(text) == encode_utf8(text.take(i)) + encode_utf8(text.skip(i)),
{
    assert(text.take(i) + text.skip(i) == text);
    lemma_encode_concat(text.take(i), text.skip(i));
}

/// Longer prefixes are at least as long in bytes.
pub proof fn lemma_prefix_byte_len_mono(text: Seq<char>, i: int, j: int)
    requires
        0 <= i <= j <= text.len(),
    ensures
        byte_len(text.take(i)) <= byte_len(text.take(j)),
{
    assert(text.take(j).take(i) == text.take(i));
    lemma_prefix_byte_len(text.take(j), i);
}

/// The bytes of a prefix end at a character boundary.
pub proof fn lemma_prefix_boundary(text: Seq<char>, i: int)
    requires
        0 <= i <= text.len(),
    ensures
        valid_utf8(encode_utf8(text)),
        is_char_boundary(encode_utf8(text), byte_len(text.take(i)) as int),
    decreases i,
{
    encode_utf8_valid_utf8(text);
    lemma_prefix_byte_len(text, i);
    if i > 0 {
        let bytes = encode_utf8(text);
        let rest = text.drop_first();
        lemma_prefix_boundary(rest, i - 1);
        encode_utf8_first_scalar(text);
        assert(pop_first_scalar(bytes) =~= encode_utf8(rest));
        assert(text.take(i).drop_first() =~= rest.take(i - 1));
        assert(text.take(i)[0] == text[0]);
        assert(byte_len(text.take(i)) == encode_scalar(text[0] as u32).len() + byte_len(rest.take(i - 1)));
        assert(is_char_boundary(bytes, byte_len(text.take(i)) as int));
    }
}

/// What `std::str::from_utf8` says of bytes that are no text.
pub uninterp spec fn utf8_fault(bytes: Seq<u8>) -> Seq<char>;

/// `std::str::from_utf8`: the text whose encoding `bytes` is, where it is one, and the text of
/// the error otherwise.
#[verifier::external_body]
pub(crate) fn text_of_bytes(bytes: &[u8]) -> (r: Result<&str, String>)
    ensures
        r is Ok == valid_utf8(bytes@),
        r matches Ok(text) ==> text@ == decode_utf8(bytes@),
        r matches Err(reason) ==> reason@ == utf8_fault(bytes@),
{
    std::str::from_utf8(bytes).map_err(|e| e.to_string())
}

/// A text has the UTF-16 code units of its characters: one each, and two beyond the first
/// 65536 code points.
pub proof fn law_utf16_len(text: Seq<char>, c: char)
    ensures
        utf16_len(Seq::empty()) == 0,
        utf16_len(text.push(c)) == utf16_len(text) + if c as int >= 0x1_0000 {
            2int
        } else {
            1int
        },
    decreases text.len(),
{
    if text.len() > 0 {
        law_utf16_len(text.drop_first(), c);
        assert(text.push(c).drop_first() =~= text.drop_first().push(c));
        assert(text.push(c)[0] == text[0]);
    } else {
        assert(text.push(c).drop_first() =~= text);
    }
}

/// The bytes of a text are those of its characters: one up to code point 127, two up to 2047,
/// three up to 65535, and four beyond.
pub proof fn law_byte_len(text: Seq<char>, c: char)
    ensures
        byte_len(Seq::empty()) == 0,
        byte_len(text.push(c)) == byte_len(text) + if c as int <= 0x7f {
            1int
        } else if c as int <= 0x7ff {
            2int
        } else if c as int <= 0xffff {
            3int
        } else {
            4int
        },
{
    lemma_encode_push(text, c);
}

} // verus!
