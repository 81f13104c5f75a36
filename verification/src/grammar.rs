//! The wire format, stated over sequences of bytes.
//!
//! `RespValue` is the mathematical model of a protocol element. `wire` gives
//! the one canonical encoding of a value. The `*_at` functions say which
//! value, if any, starts at a position of a byte sequence, and where it ends;
//! they accept everything the format allows, canonical or not.

use vstd::prelude::*;
use vstd::utf8::*;
use crate::decimal::{decimal_int, decimal_nat, digits_end, digits_value};
use crate::text::{is_line_break, single_line, CR, LF};

verus! {

/// `+`, the sigil of a simple string.
pub const SIGIL_SIMPLE_STRING: u8 = 43;

/// `-`, the sigil of a simple error, and the minus sign.
pub const SIGIL_SIMPLE_ERROR: u8 = 45;

/// `:`, the sigil of an integer.
pub const SIGIL_INTEGER: u8 = 58;

/// `$`, the sigil of a bulk string.
pub const SIGIL_BULK_STRING: u8 = 36;

/// `*`, the sigil of an array.
pub const SIGIL_ARRAY: u8 = 42;

/// `#`, the sigil of a boolean.
pub const SIGIL_BOOLEAN: u8 = 35;

/// `_`, the sigil of the unified null.
pub const SIGIL_NULL: u8 = 95;

/// The model of a protocol element.
pub enum RespValue {
    SimpleString(Seq<char>),
    SimpleError(Seq<char>),
    Integer(i64),
    BulkString(Seq<char>),
    Array(Seq<RespValue>),
    NullBulkString,
    NullArray,
    Boolean(bool),
    Null,
}

/// The line terminator, `\r\n`.
pub open spec fn crlf() -> Seq<u8> {
    seq![CR, LF]
}

/// The encoding of the null bulk string, `$-1\r\n`.
pub open spec fn null_bulk_string_wire() -> Seq<u8> {
    seq![SIGIL_BULK_STRING, 45u8, 49u8, CR, LF]
}

/// The encoding of the null array, `*-1\r\n`.
pub open spec fn null_array_wire() -> Seq<u8> {
    seq![SIGIL_ARRAY, 45u8, 49u8, CR, LF]
}

/// The encoding of the unified null, `_\r\n`.
pub open spec fn null_wire() -> Seq<u8> {
    seq![SIGIL_NULL, CR, LF]
}

/// The encoding of a boolean, `#t\r\n` or `#f\r\n`.
pub open spec fn boolean_wire(b: bool) -> Seq<u8> {
    seq![SIGIL_BOOLEAN, if b { 116u8 } else { 102u8 }, CR, LF]
}

impl RespValue {
    /// The value can be sent as it is: the text of every simple string and
    /// simple error in it is free of CR and LF.
    pub open spec fn wf(self) -> bool
        decreases self,
    {
        match self {
            RespValue::SimpleString(t) => single_line(t),
            RespValue::SimpleError(t) => single_line(t),
            RespValue::Array(items) => forall|i: int|
                0 <= i < items.len() ==> (#[trigger] items[i]).wf(),
            _ => true,
        }
    }

    /// The canonical encoding of the value.
    pub open spec fn wire(self) -> Seq<u8>
        decreases self, 0nat,
    {
        match self {
            RespValue::SimpleString(t) => seq![SIGIL_SIMPLE_STRING] + encode_utf8(t) + crlf(),
            RespValue::SimpleError(t) => seq![SIGIL_SIMPLE_ERROR] + encode_utf8(t) + crlf(),
            RespValue::Integer(i) => seq![SIGIL_INTEGER] + decimal_int(i as int) + crlf(),
            RespValue::BulkString(t) => seq![SIGIL_BULK_STRING] + decimal_nat(
                encode_utf8(t).len(),
            ) + crlf() + encode_utf8(t) + crlf(),
            RespValue::Array(items) => seq![SIGIL_ARRAY] + decimal_nat(items.len()) + crlf()
                + Self::wire_all(items, 0),
            RespValue::NullBulkString => null_bulk_string_wire(),
            RespValue::NullArray => null_array_wire(),
            RespValue::Boolean(b) => boolean_wire(b),
            RespValue::Null => null_wire(),
        }
    }

    /// The encodings of `items[from..]`, one after the other.
    pub open spec fn wire_all(items: Seq<RespValue>, from: nat) -> Seq<u8>
        decreases items, items.len() - from,
    {
        if from < items.len() {
            items[from as int].wire() + Self::wire_all(items, from + 1)
        } else {
            Seq::empty()
        }
    }
}

/// `lit` stands in `s` at `pos`.
pub open spec fn literal_at(s: Seq<u8>, pos: int, lit: Seq<u8>) -> bool {
    0 <= pos && pos + lit.len() <= s.len() && s.subrange(pos, pos + lit.len()) == lit
}

/// A line terminator stands in `s` at `pos`.
pub open spec fn is_crlf_at(s: Seq<u8>, pos: int) -> bool {
    0 <= pos && pos + 2 <= s.len() && s[pos] == CR && s[pos + 1] == LF
}

/// The first position at or after `pos` that holds CR or LF, or the end of `s`.
pub open spec fn line_end(s: Seq<u8>, pos: int) -> int
    decreases s.len() - pos,
{
    if 0 <= pos < s.len() && !is_line_break(s[pos]) {
        line_end(s, pos + 1)
    } else {
        pos
    }
}

/// The text that runs from `pos` to the next CR or LF, with the position of
/// that line break. The bytes of the text must be UTF-8.
pub open spec fn text_at(s: Seq<u8>, pos: int) -> Option<(Seq<char>, int)> {
    let end = line_end(s, pos);
    if 0 <= pos <= s.len() && valid_utf8(s.subrange(pos, end)) {
        Some((decode_utf8(s.subrange(pos, end)), end))
    } else {
        None
    }
}

/// A line of text at `pos`: text free of CR and LF, then `\r\n`.
/// Gives the text and the position after the terminator.
pub open spec fn text_line_at(s: Seq<u8>, pos: int) -> Option<(Seq<char>, int)> {
    match text_at(s, pos) {
        Some((t, end)) => if is_crlf_at(s, end) {
            Some((t, end + 2))
        } else {
            None
        },
        None => None,
    }
}

/// A simple string at `pos`: `+`, a line of text.
pub open spec fn simple_string_at(s: Seq<u8>, pos: int) -> Option<(Seq<char>, int)> {
    if 0 <= pos < s.len() && s[pos] == SIGIL_SIMPLE_STRING {
        text_line_at(s, pos + 1)
    } else {
        None
    }
}

/// A simple error at `pos`: `-`, a line of text.
pub open spec fn simple_error_at(s: Seq<u8>, pos: int) -> Option<(Seq<char>, int)> {
    if 0 <= pos < s.len() && s[pos] == SIGIL_SIMPLE_ERROR {
        text_line_at(s, pos + 1)
    } else {
        None
    }
}

/// A signed number at `pos`: an optional `+` or `-`, then at least one
/// digit. The number must fit in 64 bits. Gives the number and the position
/// after its last digit.
pub open spec fn signed_at(s: Seq<u8>, pos: int) -> Option<(i64, int)> {
    let negative = 0 <= pos < s.len() && s[pos] == 45u8;
    let signed = 0 <= pos < s.len() && (s[pos] == 45u8 || s[pos] == 43u8);
    let start = if signed {
        pos + 1
    } else {
        pos
    };
    let end = digits_end(s, start);
    let magnitude = digits_value(s, start, end) as int;
    let value = if negative {
        -magnitude
    } else {
        magnitude
    };
    if 0 <= pos && start < end && i64::MIN <= value <= i64::MAX {
        Some((value as i64, end))
    } else {
        None
    }
}

/// An integer at `pos`: `:`, a signed number, `\r\n`.
pub open spec fn integer_at(s: Seq<u8>, pos: int) -> Option<(i64, int)> {
    if 0 <= pos < s.len() && s[pos] == SIGIL_INTEGER {
        match signed_at(s, pos + 1) {
            Some((value, end)) => if is_crlf_at(s, end) {
                Some((value, end + 2))
            } else {
                None
            },
            None => None,
        }
    } else {
        None
    }
}

/// A length or count at `pos`: at least one digit, then `\r\n`.
/// Gives the number and the position after the terminator.
pub open spec fn length_at(s: Seq<u8>, pos: int) -> Option<(nat, int)> {
    let end = digits_end(s, pos);
    if 0 <= pos < end && is_crlf_at(s, end) {
        Some((digits_value(s, pos, end), end + 2))
    } else {
        None
    }
}

/// A bulk string at `pos`: `$`, a length, `\r\n`, that many bytes, `\r\n`.
/// The bytes must be UTF-8; they may hold CR and LF.
pub open spec fn bulk_string_at(s: Seq<u8>, pos: int) -> Option<(Seq<char>, int)> {
    if 0 <= pos < s.len() && s[pos] == SIGIL_BULK_STRING {
        match length_at(s, pos + 1) {
            Some((len, body)) => if is_crlf_at(s, body + len) && valid_utf8(
                s.subrange(body, body + len),
            ) {
                Some((decode_utf8(s.subrange(body, body + len)), body + len + 2))
            } else {
                None
            },
            None => None,
        }
    } else {
        None
    }
}

/// A boolean at `pos`: `#t\r\n` or `#f\r\n`.
pub open spec fn boolean_at(s: Seq<u8>, pos: int) -> Option<(bool, int)> {
    if literal_at(s, pos, boolean_wire(true)) {
        Some((true, pos + 4))
    } else if literal_at(s, pos, boolean_wire(false)) {
        Some((false, pos + 4))
    } else {
        None
    }
}

/// The element that starts at `pos`, with the position after it.
///
/// The sigil decides the kind. Of the elements that begin with `$` or `*`
/// the null forms are tried first.
pub open spec fn element_at(s: Seq<u8>, pos: int) -> Option<(RespValue, int)>
    decreases s.len() - pos, 1nat,
{
    if !(0 <= pos < s.len()) {
        None
    } else if s[pos] == SIGIL_SIMPLE_STRING {
        match simple_string_at(s, pos) {
            Some((t, end)) => Some((RespValue::SimpleString(t), end)),
            None => None,
        }
    } else if s[pos] == SIGIL_SIMPLE_ERROR {
        match simple_error_at(s, pos) {
            Some((t, end)) => Some((RespValue::SimpleError(t), end)),
            None => None,
        }
    } else if s[pos] == SIGIL_INTEGER {
        match integer_at(s, pos) {
            Some((i, end)) => Some((RespValue::Integer(i), end)),
            None => None,
        }
    } else if s[pos] == SIGIL_BULK_STRING {
        if literal_at(s, pos, null_bulk_string_wire()) {
            Some((RespValue::NullBulkString, pos + 5))
        } else {
            match bulk_string_at(s, pos) {
                Some((t, end)) => Some((RespValue::BulkString(t), end)),
                None => None,
            }
        }
    } else if s[pos] == SIGIL_ARRAY {
        if literal_at(s, pos, null_array_wire()) {
            Some((RespValue::NullArray, pos + 5))
        } else {
            match array_at(s, pos) {
                Some((items, end)) => Some((RespValue::Array(items), end)),
                None => None,
            }
        }
    } else if s[pos] == SIGIL_BOOLEAN {
        match boolean_at(s, pos) {
            Some((b, end)) => Some((RespValue::Boolean(b), end)),
            None => None,
        }
    } else if s[pos] == SIGIL_NULL {
        if literal_at(s, pos, null_wire()) {
            Some((RespValue::Null, pos + 3))
        } else {
            None
        }
    } else {
        None
    }
}

/// An array at `pos`: `*`, a count, `\r\n`, that many elements.
pub open spec fn array_at(s: Seq<u8>, pos: int) -> Option<(Seq<RespValue>, int)>
    decreases s.len() - pos, 0nat,
{
    if 0 <= pos < s.len() && s[pos] == SIGIL_ARRAY {
        match length_at(s, pos + 1) {
            Some((count, body)) => if pos < body <= s.len() {
                items_at(s, body, count)
            } else {
                None
            },
            None => None,
        }
    } else {
        None
    }
}

/// `count` elements in a row, the first at `pos`.
pub open spec fn items_at(s: Seq<u8>, pos: int, count: nat) -> Option<(Seq<RespValue>, int)>
    decreases s.len() - pos, count + 2,
{
    if count == 0 {
        Some((Seq::empty(), pos))
    } else {
        match element_at(s, pos) {
            Some((first, next)) => if pos < next <= s.len() {
                match items_at(s, next, (count - 1) as nat) {
                    Some((rest, end)) => Some((seq![first] + rest, end)),
                    None => None,
                }
            } else {
                None
            },
            None => None,
        }
    }
}

/// `head`, followed by what `tail` found.
pub open spec fn graft(head: Seq<RespValue>, tail: Option<(Seq<RespValue>, int)>) -> Option<
    (Seq<RespValue>, int),
> {
    match tail {
        Some((rest, end)) => Some((head + rest, end)),
        None => None,
    }
}

/// Elements take room: `count` of them end at least `count` bytes further on.
pub proof fn lemma_items_take_room(s: Seq<u8>, pos: int, count: nat)
    ensures
        items_at(s, pos, count) matches Some((items, end)) ==> items.len() == count && pos + count
            <= end && (count > 0 ==> end <= s.len()),
    decreases count,
{
    if count > 0 {
        if let Some((first, next)) = element_at(s, pos) {
            if pos < next <= s.len() {
                lemma_items_take_room(s, next, (count - 1) as nat);
            }
        }
    }
}

} // verus!
