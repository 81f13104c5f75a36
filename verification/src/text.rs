//! Text as bytes: UTF-8, line breaks, and comparison of strings.

use vstd::prelude::*;
use vstd::utf8::*;

verus! {

/// Carriage return.
pub const CR: u8 = 13;

/// Line feed.
pub const LF: u8 = 10;

/// The byte ends a line: it is CR or LF.
pub open spec fn is_line_break(b: u8) -> bool {
    b == CR || b == LF
}

/// No character of `t` is CR or LF.
pub open spec fn single_line(t: Seq<char>) -> bool {
    forall|i: int| 0 <= i < t.len() ==> #[trigger] t[i] != '\r' && t[i] != '\n'
}

/// No byte of `b` is CR or LF.
pub open spec fn no_line_break(b: Seq<u8>) -> bool {
    forall|i: int| 0 <= i < b.len() ==> !is_line_break(#[trigger] b[i])
}

/// The bytes of one encoded character hold a line break exactly when the
/// character is CR or LF, and then it is the only byte.
pub proof fn lemma_scalar_line_break(c: char)
    ensures
        encode_scalar(c as u32).len() >= 1,
        forall|j: int|
            0 <= j < encode_scalar(c as u32).len() ==> (is_line_break(
                #[trigger] encode_scalar(c as u32)[j],
            ) <==> (c == '\r' || c == '\n')),
{
    let v = c as u32;
    char_is_scalar(c);
    if has_width_1_encoding(v) {
        assert(leading_byte_width_1(v) == v as u8) by (bit_vector)
            requires
                has_width_1_encoding(v),
        ;
    } else {
        assert(leading_byte_width_2(v) >= 0x80 && leading_byte_width_3(v) >= 0x80
            && leading_byte_width_4(v) >= 0x80 && last_continuation_byte(v) >= 0x80
            && second_last_continuation_byte(v) >= 0x80 && third_last_continuation_byte(v)
            >= 0x80) by (bit_vector);
    }
}

/// Text is free of CR and LF exactly when its UTF-8 bytes are.
pub proof fn lemma_line_breaks_utf8(t: Seq<char>)
    ensures
        single_line(t) <==> no_line_break(encode_utf8(t)),
    decreases t.len(),
{
    if t.len() > 0 {
        let head = encode_scalar(t[0] as u32);
        let tail = encode_utf8(t.drop_first());
        let all = encode_utf8(t);
        lemma_scalar_line_break(t[0]);
        lemma_line_breaks_utf8(t.drop_first());
        if single_line(t) {
            assert(single_line(t.drop_first()));
            assert(no_line_break(head + tail));
        }
        if no_line_break(all) {
            assert(all[0] == head[0]);
            assert forall|i: int| 0 <= i < tail.len() implies !is_line_break(#[trigger] tail[i]) by {
                assert(tail[i] == all[i + head.len()]);
            }
            assert forall|i: int| 0 <= i < t.len() implies #[trigger] t[i] != '\r' && t[i]
                != '\n' by {
                if i > 0 {
                    assert(t[i] == t.drop_first()[i - 1]);
                }
            }
        }
    }
}

/// `std::str::from_utf8`, with the error dropped: the bytes are taken as a
/// string exactly when they are UTF-8, and the string then has those bytes.
#[verifier::external_body]
pub(crate) fn str_from_utf8(bytes: &[u8]) -> (text: Option<&str>)
    ensures
        text is Some <==> valid_utf8(bytes@),
        text matches Some(t) ==> encode_utf8(t@) == bytes@,
{
    std::str::from_utf8(bytes).ok()
}

/// The text that `bytes` encode, if they are UTF-8.
pub(crate) fn text_of(bytes: &[u8]) -> (text: Option<String>)
    ensures
        text is Some <==> valid_utf8(bytes@),
        text matches Some(t) ==> t@ == decode_utf8(bytes@),
{
    broadcast use encode_utf8_decode_utf8;

    match str_from_utf8(bytes) {
        Some(t) => Some(t.to_owned()),
        None => None,
    }
}

/// What `str::to_uppercase` makes of a text.
pub uninterp spec fn uppercase_of(text: Seq<char>) -> Seq<char>;

/// `str::to_uppercase`: the text with every character replaced by its
/// Unicode upper-case form. The result depends on the text alone.
#[verifier::external_body]
pub(crate) fn to_uppercase(text: &str) -> (upper: String)
    ensures
        upper@ == uppercase_of(text@),
{
    text.to_uppercase()
}

/// The two strings hold the same text.
pub fn str_equals(a: &str, b: &str) -> (same: bool)
    ensures
        same == (a@ == b@),
{
    broadcast use encode_utf8_decode_utf8;

    let x = a.as_bytes();
    let y = b.as_bytes();
    if x.len() != y.len() {
        return false;
    }
    let mut i: usize = 0;
    while i < x.len()
        invariant
            i <= x.len(),
            x.len() == y.len(),
            x@ == encode_utf8(a@),
            y@ == encode_utf8(b@),
            forall|j: int| 0 <= j < i ==> x@[j] == y@[j],
        decreases x.len() - i,
    {
        if x[i] != y[i] {
            return false;
        }
        i += 1;
    }
    assert(x@ =~= y@);
    assert(decode_utf8(encode_utf8(a@)) == a@);
    assert(decode_utf8(encode_utf8(b@)) == b@);
    true
}

} // verus!
