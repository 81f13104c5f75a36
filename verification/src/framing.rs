//! An element is decided by its own bytes.
//!
//! What the grammar reads at a position depends on nothing but the bytes
//! that the element takes up. The same bytes at another place, in another
//! sequence, followed by anything at all, are read as the same value.

use vstd::prelude::*;
use crate::decimal::{
    digits_end, is_digit, lemma_digits_end_bounds, lemma_digits_value_local,
};
use crate::grammar::{
    boolean_wire, element_at, is_crlf_at, items_at, lemma_items_take_room, length_at, line_end,
    literal_at, null_array_wire, null_bulk_string_wire, null_wire, signed_at, text_line_at,
    SIGIL_ARRAY, SIGIL_BOOLEAN, SIGIL_BULK_STRING, SIGIL_INTEGER, SIGIL_SIMPLE_ERROR,
    SIGIL_SIMPLE_STRING,
};
use crate::round_trip::{law_decoded_is_well_formed, lemma_line_end_bounds};
use crate::text::is_line_break;

verus! {

/// The `n` bytes of `a` from `p` on are the `n` bytes of `b` from `q` on.
pub open spec fn same_bytes(a: Seq<u8>, p: int, b: Seq<u8>, q: int, n: int) -> bool {
    &&& 0 <= n
    &&& 0 <= p
    &&& p + n <= a.len()
    &&& 0 <= q
    &&& q + n <= b.len()
    &&& a.subrange(p, p + n) == b.subrange(q, q + n)
}

/// Bytes that are the same are the same one by one.
proof fn lemma_same_byte(a: Seq<u8>, p: int, b: Seq<u8>, q: int, n: int, k: int)
    requires
        same_bytes(a, p, b, q, n),
        0 <= k < n,
    ensures
        a[p + k] == b[q + k],
{
    assert(a.subrange(p, p + n)[k] == a[p + k]);
}

/// A part of bytes that are the same is the same.
proof fn lemma_same_part(a: Seq<u8>, p: int, b: Seq<u8>, q: int, n: int, from: int, to: int)
    requires
        same_bytes(a, p, b, q, n),
        0 <= from <= to <= n,
    ensures
        same_bytes(a, p + from, b, q + from, to - from),
{
    let x = a.subrange(p, p + n);
    let y = b.subrange(q, q + n);
    assert(a.subrange(p + from, p + to) =~= x.subrange(from, to));
    assert(b.subrange(q + from, q + to) =~= y.subrange(from, to));
}

/// A literal that stands in the one stands in the other.
proof fn lemma_literal_local(a: Seq<u8>, p: int, b: Seq<u8>, q: int, n: int, lit: Seq<u8>)
    requires
        same_bytes(a, p, b, q, n),
        lit.len() <= n,
    ensures
        literal_at(a, p, lit) == literal_at(b, q, lit),
{
    lemma_same_part(a, p, b, q, n, 0, lit.len() as int);
}

/// A run of digits that ends within the same bytes ends at the same place.
proof fn lemma_digits_end_local(a: Seq<u8>, p: int, b: Seq<u8>, q: int, n: int)
    requires
        same_bytes(a, p, b, q, n),
        digits_end(a, p) < p + n,
    ensures
        digits_end(b, q) - q == digits_end(a, p) - p,
    decreases n,
{
    lemma_digits_end_bounds(a, p);
    lemma_same_byte(a, p, b, q, n, 0);
    if is_digit(a[p]) {
        lemma_same_part(a, p, b, q, n, 1, n);
        lemma_digits_end_local(a, p + 1, b, q + 1, n - 1);
    }
}

/// A line that ends within the same bytes ends at the same place.
proof fn lemma_line_end_local(a: Seq<u8>, p: int, b: Seq<u8>, q: int, n: int)
    requires
        same_bytes(a, p, b, q, n),
        line_end(a, p) < p + n,
    ensures
        line_end(b, q) - q == line_end(a, p) - p,
    decreases n,
{
    lemma_line_end_bounds(a, p);
    lemma_same_byte(a, p, b, q, n, 0);
    if !is_line_break(a[p]) {
        lemma_same_part(a, p, b, q, n, 1, n);
        lemma_line_end_local(a, p + 1, b, q + 1, n - 1);
    }
}

/// A line terminator within the same bytes stands in both.
proof fn lemma_crlf_local(a: Seq<u8>, p: int, b: Seq<u8>, q: int, n: int, k: int)
    requires
        same_bytes(a, p, b, q, n),
        0 <= k,
        k + 2 <= n,
    ensures
        is_crlf_at(a, p + k) == is_crlf_at(b, q + k),
{
    lemma_same_byte(a, p, b, q, n, k);
    lemma_same_byte(a, p, b, q, n, k + 1);
}

/// A line of text is decided by its own bytes.
proof fn lemma_text_line_local(a: Seq<u8>, p: int, b: Seq<u8>, q: int, n: int)
    requires
        text_line_at(a, p) matches Some((_, end)) && end == p + n,
        same_bytes(a, p, b, q, n),
    ensures
        text_line_at(a, p) matches Some((t, _)) && text_line_at(b, q) == Some((t, q + n)),
{
    let stop = line_end(a, p);
    lemma_line_end_bounds(a, p);
    lemma_line_end_local(a, p, b, q, n);
    lemma_same_part(a, p, b, q, n, 0, stop - p);
    lemma_crlf_local(a, p, b, q, n, stop - p);
}

/// A signed number and the terminator after it are decided by their bytes.
proof fn lemma_signed_local(a: Seq<u8>, p: int, b: Seq<u8>, q: int, n: int)
    requires
        signed_at(a, p) matches Some((_, end)) && end < p + n,
        same_bytes(a, p, b, q, n),
    ensures
        signed_at(a, p) matches Some((value, end)) && signed_at(b, q) == Some(
            (value, q + (end - p)),
        ),
{
    lemma_same_byte(a, p, b, q, n, 0);
    let signed = a[p] == 45u8 || a[p] == 43u8;
    let skip: int = if signed {
        1
    } else {
        0
    };
    let end = digits_end(a, p + skip);
    lemma_digits_end_bounds(a, p + skip);
    lemma_same_part(a, p, b, q, n, skip, n);
    lemma_digits_end_local(a, p + skip, b, q + skip, n - skip);
    lemma_same_part(a, p, b, q, n, skip, end - p);
    lemma_digits_value_local(a, p + skip, b, q + skip, end - p - skip);
}

/// A length and its terminator are decided by their bytes.
proof fn lemma_length_local(a: Seq<u8>, p: int, b: Seq<u8>, q: int, n: int)
    requires
        length_at(a, p) matches Some((_, body)) && body <= p + n,
        same_bytes(a, p, b, q, n),
    ensures
        length_at(a, p) matches Some((len, body)) && length_at(b, q) == Some(
            (len, q + (body - p)),
        ),
{
    let end = digits_end(a, p);
    lemma_digits_end_bounds(a, p);
    lemma_digits_end_local(a, p, b, q, n);
    lemma_same_part(a, p, b, q, n, 0, end - p);
    lemma_digits_value_local(a, p, b, q, end - p);
    lemma_crlf_local(a, p, b, q, n, end - p);
}

/// An element is decided by its own bytes: where the bytes that it takes up
/// stand again, the same element is read.
pub proof fn law_decoding_is_local(a: Seq<u8>, p: int, b: Seq<u8>, q: int)
    requires
        element_at(a, p) matches Some((_, end)) && same_bytes(a, p, b, q, end - p),
    ensures
        element_at(a, p) matches Some((v, end)) && element_at(b, q) == Some((v, q + (end - p))),
    decreases a.len() - p, 1nat,
{
    let (v, end) = element_at(a, p)->Some_0;
    let n = end - p;
    law_decoded_is_well_formed(a, p);
    lemma_same_byte(a, p, b, q, n, 0);
    if a[p] == SIGIL_SIMPLE_STRING || a[p] == SIGIL_SIMPLE_ERROR {
        lemma_same_part(a, p, b, q, n, 1, n);
        lemma_text_line_local(a, p + 1, b, q + 1, n - 1);
    } else if a[p] == SIGIL_INTEGER {
        lemma_same_part(a, p, b, q, n, 1, n);
        lemma_signed_local(a, p + 1, b, q + 1, n - 1);
        let stop = signed_at(a, p + 1)->Some_0.1;
        lemma_crlf_local(a, p, b, q, n, stop - p);
    } else if a[p] == SIGIL_BULK_STRING {
        if literal_at(a, p, null_bulk_string_wire()) {
            lemma_literal_local(a, p, b, q, n, null_bulk_string_wire());
        } else {
            lemma_same_part(a, p, b, q, n, 1, n);
            lemma_length_local(a, p + 1, b, q + 1, n - 1);
            let (len, body) = length_at(a, p + 1)->Some_0;
            lemma_crlf_local(a, p, b, q, n, body + len - p);
            lemma_same_part(a, p, b, q, n, body - p, body + len - p);
            lemma_same_byte(a, p, b, q, n, 1);
            assert(!literal_at(b, q, null_bulk_string_wire()));
        }
    } else if a[p] == SIGIL_ARRAY {
        if literal_at(a, p, null_array_wire()) {
            lemma_literal_local(a, p, b, q, n, null_array_wire());
        } else {
            let (count, body) = length_at(a, p + 1)->Some_0;
            lemma_items_take_room(a, body, count);
            lemma_same_part(a, p, b, q, n, 1, n);
            lemma_length_local(a, p + 1, b, q + 1, n - 1);
            lemma_same_part(a, p, b, q, n, body - p, n);
            lemma_items_local(a, body, b, q + (body - p), count);
            lemma_same_byte(a, p, b, q, n, 1);
            assert(!literal_at(b, q, null_array_wire()));
        }
    } else if a[p] == SIGIL_BOOLEAN {
        lemma_literal_local(a, p, b, q, n, boolean_wire(true));
        lemma_literal_local(a, p, b, q, n, boolean_wire(false));
    } else {
        lemma_literal_local(a, p, b, q, n, null_wire());
    }
}

/// A row of elements is decided by its own bytes.
pub proof fn lemma_items_local(a: Seq<u8>, p: int, b: Seq<u8>, q: int, count: nat)
    requires
        0 <= p <= a.len(),
        items_at(a, p, count) matches Some((_, end)) && same_bytes(a, p, b, q, end - p),
    ensures
        items_at(a, p, count) matches Some((items, end)) && items_at(b, q, count) == Some(
            (items, q + (end - p)),
        ),
    decreases a.len() - p, count + 2,
{
    if count > 0 {
        let (items, end) = items_at(a, p, count)->Some_0;
        let (first, next) = element_at(a, p)->Some_0;
        lemma_items_take_room(a, next, (count - 1) as nat);
        lemma_same_part(a, p, b, q, end - p, 0, next - p);
        law_decoding_is_local(a, p, b, q);
        lemma_same_part(a, p, b, q, end - p, next - p, end - p);
        lemma_items_local(a, next, b, q + (next - p), (count - 1) as nat);
    }
}

/// Bytes that arrive after an element change nothing of it: what was read
/// once is read again, however much input has been added.
pub proof fn law_more_input_changes_nothing(s: Seq<u8>, pos: int, more: Seq<u8>)
    requires
        element_at(s, pos) is Some,
    ensures
        element_at(s + more, pos) == element_at(s, pos),
{
    let (v, end) = element_at(s, pos)->Some_0;
    law_decoded_is_well_formed(s, pos);
    assert(s.subrange(pos, end) =~= (s + more).subrange(pos, end));
    law_decoding_is_local(s, pos, s + more, pos);
}

} // verus!
