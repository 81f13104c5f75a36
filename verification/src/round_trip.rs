//! Decoding undoes encoding.
//!
//! Wherever the canonical encoding of a well-formed value stands in a byte
//! sequence, the grammar finds that value there and nothing else, and it ends
//! where the encoding ends.

use vstd::prelude::*;
use vstd::utf8::{encode_utf8, encode_utf8_decode_utf8, encode_utf8_valid_utf8};
use crate::decimal::{
    decimal_int, decimal_nat, digits_end, digits_value, is_digit, lemma_decimal_nat_digits,
    lemma_decimal_nat_value, lemma_digits_end_run, lemma_digits_value_local,
};
use crate::grammar::{
    boolean_wire, crlf, element_at, items_at, length_at, line_end, literal_at, null_array_wire,
    null_bulk_string_wire, text_line_at, RespValue, SIGIL_ARRAY, SIGIL_BULK_STRING,
    SIGIL_INTEGER, SIGIL_SIMPLE_ERROR, SIGIL_SIMPLE_STRING,
};
use crate::parse::{RespElement, RespSerialise};
use crate::text::{is_line_break, lemma_line_breaks_utf8, no_line_break, single_line, CR, LF};

verus! {

/// Where `a + b` stands, `a` stands, and `b` stands right after it.
pub proof fn lemma_literal_split(s: Seq<u8>, pos: int, a: Seq<u8>, b: Seq<u8>)
    requires
        literal_at(s, pos, a + b),
    ensures
        literal_at(s, pos, a),
        literal_at(s, pos + a.len(), b),
{
    let whole = s.subrange(pos, pos + (a + b).len());
    assert(s.subrange(pos, pos + a.len()) =~= whole.subrange(0, a.len() as int));
    assert(whole.subrange(0, a.len() as int) =~= a);
    assert(s.subrange(pos + a.len(), pos + a.len() + b.len()) =~= whole.subrange(
        a.len() as int,
        whole.len() as int,
    ));
    assert(whole.subrange(a.len() as int, whole.len() as int) =~= b);
}

/// Where `lit` stands, its bytes stand one by one.
pub proof fn lemma_literal_bytes(s: Seq<u8>, pos: int, lit: Seq<u8>)
    requires
        literal_at(s, pos, lit),
    ensures
        forall|k: int| 0 <= k < lit.len() ==> #[trigger] lit[k] == s[pos + k],
{
    assert(s.subrange(pos, pos + lit.len()) == lit);
}

/// A run of bytes without a line break reaches exactly to the first line break.
pub proof fn lemma_line_end_run(s: Seq<u8>, from: int, to: int)
    requires
        0 <= from <= to <= s.len(),
        forall|i: int| from <= i < to ==> !is_line_break(#[trigger] s[i]),
        to == s.len() || is_line_break(s[to]),
    ensures
        line_end(s, from) == to,
    decreases to - from,
{
    if from < to {
        lemma_line_end_run(s, from + 1, to);
    }
}

/// Where the spelling of `n` stands before a byte that is no digit, the
/// grammar reads `n`.
pub proof fn lemma_decimal_placed(s: Seq<u8>, pos: int, n: nat)
    requires
        literal_at(s, pos, decimal_nat(n)),
        pos + decimal_nat(n).len() == s.len() || !is_digit(s[pos + decimal_nat(n).len()]),
    ensures
        digits_end(s, pos) == pos + decimal_nat(n).len(),
        digits_value(s, pos, pos + decimal_nat(n).len()) == n,
        decimal_nat(n).len() >= 1,
        is_digit(s[pos]),
{
    let d = decimal_nat(n);
    lemma_decimal_nat_digits(n);
    lemma_decimal_nat_value(n);
    lemma_literal_bytes(s, pos, d);
    assert forall|i: int| pos <= i < pos + d.len() implies is_digit(#[trigger] s[i]) by {
        assert(d[i - pos] == s[pos + (i - pos)]);
    }
    lemma_digits_end_run(s, pos, pos + d.len());
    assert(d.subrange(0, d.len() as int) =~= d);
    lemma_digits_value_local(s, pos, d, 0, d.len() as int);
}

/// Where a line of text and its terminator stand, the grammar reads the text.
proof fn lemma_text_line_placed(s: Seq<u8>, pos: int, t: Seq<char>)
    requires
        single_line(t),
        literal_at(s, pos, encode_utf8(t) + crlf()),
    ensures
        text_line_at(s, pos) == Some((t, pos + encode_utf8(t).len() + 2)),
{
    broadcast use {encode_utf8_valid_utf8, encode_utf8_decode_utf8};

    let enc = encode_utf8(t);
    let end = pos + enc.len();
    lemma_literal_split(s, pos, enc, crlf());
    lemma_literal_bytes(s, pos, enc);
    lemma_literal_bytes(s, end, crlf());
    lemma_line_breaks_utf8(t);
    assert forall|i: int| pos <= i < end implies !is_line_break(#[trigger] s[i]) by {
        assert(enc[i - pos] == s[pos + (i - pos)]);
    }
    lemma_line_end_run(s, pos, end);
}

/// Where a count and its terminator stand, the grammar reads the count.
proof fn lemma_length_placed(s: Seq<u8>, pos: int, n: nat)
    requires
        literal_at(s, pos, decimal_nat(n) + crlf()),
    ensures
        length_at(s, pos) == Some((n, pos + decimal_nat(n).len() + 2)),
        is_digit(s[pos]),
{
    let d = decimal_nat(n);
    lemma_literal_split(s, pos, d, crlf());
    lemma_literal_bytes(s, pos + d.len(), crlf());
    lemma_decimal_placed(s, pos, n);
}

/// Every encoding has at least three bytes.
pub proof fn lemma_wire_len(v: RespValue)
    ensures
        v.wire().len() >= 3,
{
}

/// Where the canonical encoding of a well-formed value stands, the grammar
/// reads that value, and the element ends where the encoding ends.
pub proof fn lemma_element_round_trip(s: Seq<u8>, pos: int, v: RespValue)
    requires
        v.wf(),
        literal_at(s, pos, v.wire()),
    ensures
        element_at(s, pos) == Some((v, pos + v.wire().len())),
    decreases v, 0nat,
{
    let w = v.wire();
    lemma_literal_bytes(s, pos, w);
    assert(w[0] == s[pos + 0]);
    match v {
        RespValue::SimpleString(t) => {
            assert(w =~= seq![SIGIL_SIMPLE_STRING] + (encode_utf8(t) + crlf()));
            lemma_literal_split(s, pos, seq![SIGIL_SIMPLE_STRING], encode_utf8(t) + crlf());
            lemma_text_line_placed(s, pos + 1, t);
        },
        RespValue::SimpleError(t) => {
            assert(w =~= seq![SIGIL_SIMPLE_ERROR] + (encode_utf8(t) + crlf()));
            lemma_literal_split(s, pos, seq![SIGIL_SIMPLE_ERROR], encode_utf8(t) + crlf());
            lemma_text_line_placed(s, pos + 1, t);
        },
        RespValue::Integer(i) => {
            lemma_integer_round_trip(s, pos, i);
        },
        RespValue::BulkString(t) => {
            lemma_bulk_string_round_trip(s, pos, t);
        },
        RespValue::Array(items) => {
            let n = items.len();
            let head = decimal_nat(n) + crlf();
            let body = RespValue::wire_all(items, 0);
            assert(w =~= seq![SIGIL_ARRAY] + (head + body));
            lemma_literal_split(s, pos, seq![SIGIL_ARRAY], head + body);
            lemma_literal_split(s, pos + 1, head, body);
            lemma_length_placed(s, pos + 1, n);
            assert(!literal_at(s, pos, null_array_wire())) by {
                if literal_at(s, pos, null_array_wire()) {
                    lemma_literal_bytes(s, pos, null_array_wire());
                }
            }
            let start = pos + 1 + head.len();
            lemma_items_round_trip(s, start, items, 0);
            assert(items.subrange(0, items.len() as int) =~= items);
        },
        RespValue::NullBulkString => {},
        RespValue::NullArray => {},
        RespValue::Boolean(b) => {
            if !b {
                if literal_at(s, pos, boolean_wire(true)) {
                    lemma_literal_bytes(s, pos, boolean_wire(true));
                }
            }
        },
        RespValue::Null => {},
    }
}

/// The integer case of `lemma_element_round_trip`.
proof fn lemma_integer_round_trip(s: Seq<u8>, pos: int, i: i64)
    requires
        literal_at(s, pos, RespValue::Integer(i).wire()),
    ensures
        element_at(s, pos) == Some(
            (RespValue::Integer(i), pos + RespValue::Integer(i).wire().len()),
        ),
{
    let w = RespValue::Integer(i).wire();
    let num = decimal_int(i as int);
    lemma_literal_bytes(s, pos, w);
    assert(w[0] == s[pos + 0]);
    assert(w =~= seq![SIGIL_INTEGER] + (num + crlf()));
    lemma_literal_split(s, pos, seq![SIGIL_INTEGER], num + crlf());
    lemma_literal_split(s, pos + 1, num, crlf());
    let end = pos + 1 + num.len();
    lemma_literal_bytes(s, end, crlf());
    if i < 0 {
        let m = (-i) as nat;
        let d = decimal_nat(m);
        lemma_literal_split(s, pos + 1, seq![45u8], d);
        lemma_literal_bytes(s, pos + 1, seq![45u8]);
        assert(seq![45u8][0] == s[pos + 1 + 0]);
        lemma_decimal_placed(s, pos + 2, m);
    } else {
        lemma_decimal_placed(s, pos + 1, i as nat);
    }
}

/// The bulk string case of `lemma_element_round_trip`.
proof fn lemma_bulk_string_round_trip(s: Seq<u8>, pos: int, t: Seq<char>)
    requires
        literal_at(s, pos, RespValue::BulkString(t).wire()),
    ensures
        element_at(s, pos) == Some(
            (RespValue::BulkString(t), pos + RespValue::BulkString(t).wire().len()),
        ),
{
    broadcast use {encode_utf8_valid_utf8, encode_utf8_decode_utf8};

    let w = RespValue::BulkString(t).wire();
    let enc = encode_utf8(t);
    let head = decimal_nat(enc.len()) + crlf();
    lemma_literal_bytes(s, pos, w);
    assert(w[0] == s[pos + 0]);
    assert(w =~= seq![SIGIL_BULK_STRING] + (head + (enc + crlf())));
    lemma_literal_split(s, pos, seq![SIGIL_BULK_STRING], head + (enc + crlf()));
    lemma_literal_split(s, pos + 1, head, enc + crlf());
    lemma_length_placed(s, pos + 1, enc.len());
    let body = pos + 1 + head.len();
    lemma_literal_split(s, body, enc, crlf());
    lemma_literal_bytes(s, body + enc.len(), crlf());
    assert(!literal_at(s, pos, null_bulk_string_wire())) by {
        if literal_at(s, pos, null_bulk_string_wire()) {
            lemma_literal_bytes(s, pos, null_bulk_string_wire());
        }
    }
}

/// Where the encodings of `items[from..]` stand in a row, the grammar reads
/// those items.
pub proof fn lemma_items_round_trip(s: Seq<u8>, pos: int, items: Seq<RespValue>, from: nat)
    requires
        from <= items.len(),
        forall|i: int| 0 <= i < items.len() ==> (#[trigger] items[i]).wf(),
        literal_at(s, pos, RespValue::wire_all(items, from)),
    ensures
        items_at(s, pos, (items.len() - from) as nat) == Some(
            (
                items.subrange(from as int, items.len() as int),
                pos + RespValue::wire_all(items, from).len(),
            ),
        ),
    decreases items, items.len() - from,
{
    if from < items.len() {
        let first = items[from as int];
        let w = first.wire();
        let rest = RespValue::wire_all(items, from + 1);
        lemma_literal_split(s, pos, w, rest);
        lemma_wire_len(first);
        lemma_element_round_trip(s, pos, first);
        lemma_items_round_trip(s, pos + w.len(), items, from + 1);
    }
}

/// Decoding the encoding of a value gives the value back, and uses up the
/// whole encoding.
pub proof fn law_decode_inverts_encode(v: RespValue)
    requires
        v.wf(),
    ensures
        element_at(v.wire(), 0) == Some((v, v.wire().len() as int)),
{
    assert(v.wire().subrange(0, v.wire().len() as int) =~= v.wire());
    lemma_element_round_trip(v.wire(), 0, v);
}

/// An encoding is found again inside any stream: whatever comes before and
/// after it, decoding at its first byte gives the value and stops at its end.
pub proof fn law_decode_inverts_encode_in_stream(before: Seq<u8>, v: RespValue, after: Seq<u8>)
    requires
        v.wf(),
    ensures
        element_at(before + v.wire() + after, before.len() as int) == Some(
            (v, (before.len() + v.wire().len()) as int),
        ),
{
    let s = before + v.wire() + after;
    assert(s.subrange(before.len() as int, (before.len() + v.wire().len()) as int) =~= v.wire());
    lemma_element_round_trip(s, before.len() as int, v);
}

/// Two well-formed values with the same encoding are the same value.
pub proof fn law_encoding_is_injective(a: RespValue, b: RespValue)
    requires
        a.wf(),
        b.wf(),
        a.wire() == b.wire(),
    ensures
        a == b,
{
    law_decode_inverts_encode(a);
    law_decode_inverts_encode(b);
}

/// Encoding is deterministic: elements that stand for the same value have
/// the same bytes.
pub proof fn law_encoding_is_deterministic(a: RespElement, b: RespElement)
    requires
        a@ == b@,
    ensures
        a.encoding() == b.encoding(),
{
}

/// From `pos` to the end of the line there is no line break.
pub proof fn lemma_line_end_bounds(s: Seq<u8>, pos: int)
    requires
        0 <= pos <= s.len(),
    ensures
        pos <= line_end(s, pos) <= s.len(),
        no_line_break(s.subrange(pos, line_end(s, pos))),
    decreases s.len() - pos,
{
    if pos < s.len() && !is_line_break(s[pos]) {
        lemma_line_end_bounds(s, pos + 1);
        let end = line_end(s, pos);
        let tail = s.subrange(pos + 1, end);
        let line = s.subrange(pos, end);
        assert forall|i: int| 0 <= i < line.len() implies !is_line_break(#[trigger] line[i]) by {
            if i > 0 {
                assert(line[i] == tail[i - 1]);
            }
        }
    }
}

/// A line of text that the grammar reads is free of CR and LF.
proof fn lemma_text_line_is_single_line(s: Seq<u8>, pos: int)
    ensures
        text_line_at(s, pos) matches Some((t, end)) ==> single_line(t) && pos < end <= s.len(),
{
    broadcast use vstd::utf8::decode_utf8_encode_utf8;

    if let Some((t, end)) = text_line_at(s, pos) {
        lemma_line_end_bounds(s, pos);
        lemma_line_breaks_utf8(t);
    }
}

/// Whatever the grammar reads is well-formed, is not empty, and lies within
/// the bytes.
pub proof fn law_decoded_is_well_formed(s: Seq<u8>, pos: int)
    ensures
        element_at(s, pos) matches Some((v, end)) ==> v.wf() && pos < end <= s.len(),
    decreases s.len() - pos, 1nat,
{
    if 0 <= pos < s.len() {
        lemma_text_line_is_single_line(s, pos + 1);
        if s[pos] == SIGIL_ARRAY {
            if let Some((count, body)) = length_at(s, pos + 1) {
                if pos < body <= s.len() {
                    law_items_are_well_formed(s, body, count);
                }
            }
        }
    }
}

/// Whatever the grammar reads as a row of elements is well-formed element by
/// element, and lies within the bytes.
pub proof fn law_items_are_well_formed(s: Seq<u8>, pos: int, count: nat)
    requires
        0 <= pos <= s.len(),
    ensures
        items_at(s, pos, count) matches Some((items, end)) ==> pos <= end <= s.len()
            && items.len() == count && forall|i: int|
            0 <= i < items.len() ==> (#[trigger] items[i]).wf(),
    decreases s.len() - pos, count + 2,
{
    if count > 0 {
        law_decoded_is_well_formed(s, pos);
        if let Some((first, next)) = element_at(s, pos) {
            if pos < next <= s.len() {
                law_items_are_well_formed(s, next, (count - 1) as nat);
                if let Some((rest, end)) = items_at(s, next, (count - 1) as nat) {
                    let items = seq![first] + rest;
                    assert forall|i: int| 0 <= i < items.len() implies (#[trigger] items[i]).wf() by {
                        if i > 0 {
                            assert(items[i] == rest[i - 1]);
                        }
                    }
                }
            }
        }
    }
}

/// Decoding, encoding what was read, and decoding again gives the same value.
pub proof fn law_reencoding_is_stable(s: Seq<u8>, pos: int)
    ensures
        element_at(s, pos) matches Some((v, _)) ==> element_at(v.wire(), 0) == Some(
            (v, v.wire().len() as int),
        ),
{
    if let Some((v, _)) = element_at(s, pos) {
        law_decoded_is_well_formed(s, pos);
        law_decode_inverts_encode(v);
    }
}

} // verus!
