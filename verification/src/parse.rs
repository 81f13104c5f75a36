//! The protocol codec: elements, their encoding, and the decoder.

use vstd::prelude::*;
use vstd::slice::slice_subrange;
use vstd::utf8::encode_utf8;
use crate::decimal::{push_decimal, read_digits, scan_digits};
use crate::grammar::{
    array_at, boolean_at, boolean_wire, bulk_string_at, crlf, element_at, graft, integer_at,
    is_crlf_at, items_at, lemma_items_take_room, length_at, line_end, literal_at,
    null_array_wire, null_bulk_string_wire, null_wire, signed_at, simple_error_at,
    simple_string_at, text_at, text_line_at, RespValue, SIGIL_ARRAY, SIGIL_BOOLEAN,
    SIGIL_BULK_STRING, SIGIL_INTEGER, SIGIL_NULL, SIGIL_SIMPLE_ERROR, SIGIL_SIMPLE_STRING,
};
use crate::text::{text_of, CR, LF};

verus! {

/// A short status text. It is meant to hold neither CR nor LF.
#[derive(Debug, Clone, PartialEq, Eq)]
pub struct SimpleString(pub String);

/// An error message. It is meant to hold neither CR nor LF.
#[derive(Debug, Clone, PartialEq, Eq)]
pub struct SimpleError(pub String);

/// A string that is sent with its length, so that it may hold any text.
#[derive(Debug, Clone, PartialEq, Eq)]
pub struct BulkString(pub String);

/// The null that takes the place of an array.
#[derive(Debug, Clone, Copy, PartialEq, Eq)]
pub struct NullArray;

/// The null that takes the place of a bulk string.
#[derive(Debug, Clone, Copy, PartialEq, Eq)]
pub struct NullBulkString;

/// The null that stands for itself.
#[derive(Debug, Clone, Copy, PartialEq, Eq)]
pub struct Null;

/// A protocol element: any value that the wire format can carry.
#[derive(Debug, PartialEq, Eq)]
pub enum RespElement {
    SimpleString(SimpleString),
    SimpleError(SimpleError),
    Integer(i64),
    BulkString(BulkString),
    Array(Vec<RespElement>),
    NullElement(NullBulkString),
    NullArray(NullArray),
    Boolean(bool),
    Null,
}

impl View for SimpleString {
    type V = Seq<char>;

    open spec fn view(&self) -> Seq<char> {
        self.0@
    }
}

impl View for SimpleError {
    type V = Seq<char>;

    open spec fn view(&self) -> Seq<char> {
        self.0@
    }
}

impl View for BulkString {
    type V = Seq<char>;

    open spec fn view(&self) -> Seq<char> {
        self.0@
    }
}

impl RespElement {
    /// The value that the element stands for.
    pub open spec fn model(self) -> RespValue
        decreases self,
    {
        match self {
            RespElement::SimpleString(s) => RespValue::SimpleString(s@),
            RespElement::SimpleError(e) => RespValue::SimpleError(e@),
            RespElement::Integer(i) => RespValue::Integer(i),
            RespElement::BulkString(b) => RespValue::BulkString(b@),
            RespElement::Array(items) => RespValue::Array(
                Seq::new(
                    items@.len(),
                    |i: int|
                        if 0 <= i < items@.len() {
                            items@[i].model()
                        } else {
                            RespValue::Null
                        },
                ),
            ),
            RespElement::NullElement(_) => RespValue::NullBulkString,
            RespElement::NullArray(_) => RespValue::NullArray,
            RespElement::Boolean(b) => RespValue::Boolean(b),
            RespElement::Null => RespValue::Null,
        }
    }
}

impl View for RespElement {
    type V = RespValue;

    open spec fn view(&self) -> RespValue {
        self.model()
    }
}

impl Clone for RespElement {
    fn clone(&self) -> (copy: RespElement)
        ensures
            copy@ == self@,
        decreases self,
    {
        match self {
            RespElement::SimpleString(s) => RespElement::SimpleString(SimpleString(s.0.clone())),
            RespElement::SimpleError(e) => RespElement::SimpleError(SimpleError(e.0.clone())),
            RespElement::Integer(i) => RespElement::Integer(*i),
            RespElement::BulkString(b) => RespElement::BulkString(BulkString(b.0.clone())),
            RespElement::Array(items) => {
                let mut copies: Vec<RespElement> = Vec::new();
                let mut i: usize = 0;
                while i < items.len()
                    invariant
                        i <= items.len(),
                        copies@.len() == i,
                        self is Array,
                        self->Array_0 == *items,
                        forall|k: int| 0 <= k < i ==> (#[trigger] copies@[k])@ == items@[k]@,
                    decreases items.len() - i,
                {
                    copies.push(items[i].clone());
                    i += 1;
                }
                proof {
                    lemma_array_view(*items);
                    lemma_array_view(copies);
                    assert(views_of(copies@) =~= views_of(items@));
                }
                RespElement::Array(copies)
            },
            RespElement::NullElement(_) => RespElement::NullElement(NullBulkString),
            RespElement::NullArray(_) => RespElement::NullArray(NullArray),
            RespElement::Boolean(b) => RespElement::Boolean(*b),
            RespElement::Null => RespElement::Null,
        }
    }
}

/// The models of `items`, in order.
pub open spec fn views_of(items: Seq<RespElement>) -> Seq<RespValue> {
    Seq::new(items.len(), |i: int| items[i]@)
}

/// The model of an array element is the array of its items' models.
pub proof fn lemma_array_view(items: Vec<RespElement>)
    ensures
        RespElement::Array(items)@ == RespValue::Array(views_of(items@)),
{
    assert(RespElement::Array(items)@->Array_0 =~= views_of(items@));
}

impl SimpleString {
    /// The text, borrowed.
    pub fn as_str(&self) -> (text: &str)
        ensures
            text@ == self@,
    {
        self.0.as_str()
    }

    /// The text, owned.
    pub fn unwrap(self) -> (text: String)
        ensures
            text@ == self@,
    {
        self.0
    }
}

impl SimpleError {
    /// The message, borrowed.
    pub fn as_str(&self) -> (text: &str)
        ensures
            text@ == self@,
    {
        self.0.as_str()
    }

    /// The message, owned.
    pub fn unwrap(self) -> (text: String)
        ensures
            text@ == self@,
    {
        self.0
    }
}

impl BulkString {
    /// The text, borrowed.
    pub fn as_str(&self) -> (text: &str)
        ensures
            text@ == self@,
    {
        self.0.as_str()
    }

    /// The text, owned.
    pub fn unwrap(self) -> (text: String)
        ensures
            text@ == self@,
    {
        self.0
    }
}

impl From<String> for SimpleString {
    fn from(s: String) -> (r: SimpleString) {
        SimpleString(s)
    }
}

impl vstd::std_specs::convert::FromSpecImpl<String> for SimpleString {
    open spec fn obeys_from_spec() -> bool {
        true
    }

    open spec fn from_spec(s: String) -> SimpleString {
        SimpleString(s)
    }
}

impl From<String> for SimpleError {
    fn from(s: String) -> (r: SimpleError) {
        SimpleError(s)
    }
}

impl vstd::std_specs::convert::FromSpecImpl<String> for SimpleError {
    open spec fn obeys_from_spec() -> bool {
        true
    }

    open spec fn from_spec(s: String) -> SimpleError {
        SimpleError(s)
    }
}

impl From<String> for BulkString {
    fn from(s: String) -> (r: BulkString) {
        BulkString(s)
    }
}

impl vstd::std_specs::convert::FromSpecImpl<String> for BulkString {
    open spec fn obeys_from_spec() -> bool {
        true
    }

    open spec fn from_spec(s: String) -> BulkString {
        BulkString(s)
    }
}

/// A value that has an encoding in the wire format.
pub trait RespSerialise {
    /// The bytes that stand for the value on the wire.
    spec fn encoding(&self) -> Seq<u8>;

    /// Encodes the value. Every value has exactly one encoding.
    fn serialise(&self) -> (bytes: Vec<u8>)
        ensures
            bytes@ == self.encoding(),
    ;
}

/// Appends `\r\n`.
fn push_crlf(out: &mut Vec<u8>)
    ensures
        final(out)@ == old(out)@ + crlf(),
{
    out.push(CR);
    out.push(LF);
}

/// A sigil, the text, `\r\n`.
fn serialise_line(sigil: u8, text: &str) -> (bytes: Vec<u8>)
    ensures
        bytes@ == seq![sigil] + encode_utf8(text@) + crlf(),
{
    let mut out: Vec<u8> = Vec::new();
    out.push(sigil);
    out.extend_from_slice(text.as_bytes());
    push_crlf(&mut out);
    out
}

impl RespSerialise for SimpleString {
    open spec fn encoding(&self) -> Seq<u8> {
        RespValue::SimpleString(self@).wire()
    }

    fn serialise(&self) -> (bytes: Vec<u8>) {
        serialise_line(SIGIL_SIMPLE_STRING, self.0.as_str())
    }
}

impl RespSerialise for SimpleError {
    open spec fn encoding(&self) -> Seq<u8> {
        RespValue::SimpleError(self@).wire()
    }

    fn serialise(&self) -> (bytes: Vec<u8>) {
        serialise_line(SIGIL_SIMPLE_ERROR, self.0.as_str())
    }
}

impl RespSerialise for i64 {
    open spec fn encoding(&self) -> Seq<u8> {
        RespValue::Integer(*self).wire()
    }

    fn serialise(&self) -> (bytes: Vec<u8>) {
        let mut out: Vec<u8> = Vec::new();
        out.push(SIGIL_INTEGER);
        let value: i64 = *self;
        if value < 0 {
            out.push(45u8);
            let magnitude: u64 = (-(value + 1)) as u64 + 1;
            push_decimal(&mut out, magnitude);
        } else {
            push_decimal(&mut out, value as u64);
        }
        push_crlf(&mut out);
        out
    }
}

impl RespSerialise for BulkString {
    open spec fn encoding(&self) -> Seq<u8> {
        RespValue::BulkString(self@).wire()
    }

    fn serialise(&self) -> (bytes: Vec<u8>) {
        let text = self.0.as_str().as_bytes();
        let mut out: Vec<u8> = Vec::new();
        out.push(SIGIL_BULK_STRING);
        push_decimal(&mut out, text.len() as u64);
        push_crlf(&mut out);
        out.extend_from_slice(text);
        push_crlf(&mut out);
        out
    }
}

impl RespSerialise for bool {
    open spec fn encoding(&self) -> Seq<u8> {
        RespValue::Boolean(*self).wire()
    }

    fn serialise(&self) -> (bytes: Vec<u8>) {
        let mut out: Vec<u8> = Vec::new();
        out.push(SIGIL_BOOLEAN);
        out.push(if *self { 116u8 } else { 102u8 });
        push_crlf(&mut out);
        out
    }
}

impl RespSerialise for NullArray {
    open spec fn encoding(&self) -> Seq<u8> {
        RespValue::NullArray.wire()
    }

    fn serialise(&self) -> (bytes: Vec<u8>) {
        let mut out: Vec<u8> = Vec::new();
        out.push(SIGIL_ARRAY);
        out.push(45u8);
        out.push(49u8);
        push_crlf(&mut out);
        out
    }
}

impl RespSerialise for NullBulkString {
    open spec fn encoding(&self) -> Seq<u8> {
        RespValue::NullBulkString.wire()
    }

    fn serialise(&self) -> (bytes: Vec<u8>) {
        let mut out: Vec<u8> = Vec::new();
        out.push(SIGIL_BULK_STRING);
        out.push(45u8);
        out.push(49u8);
        push_crlf(&mut out);
        out
    }
}

impl RespSerialise for Null {
    open spec fn encoding(&self) -> Seq<u8> {
        RespValue::Null.wire()
    }

    fn serialise(&self) -> (bytes: Vec<u8>) {
        let mut out: Vec<u8> = Vec::new();
        out.push(SIGIL_NULL);
        push_crlf(&mut out);
        out
    }
}

impl RespSerialise for RespElement {
    open spec fn encoding(&self) -> Seq<u8> {
        self@.wire()
    }

    fn serialise(&self) -> (bytes: Vec<u8>)
        decreases self,
    {
        match self {
            RespElement::SimpleString(s) => s.serialise(),
            RespElement::SimpleError(e) => e.serialise(),
            RespElement::Integer(i) => i.serialise(),
            RespElement::BulkString(b) => b.serialise(),
            RespElement::Array(items) => {
                proof {
                    lemma_array_view(*items);
                }
                items.serialise()
            },
            RespElement::NullElement(n) => n.serialise(),
            RespElement::NullArray(n) => n.serialise(),
            RespElement::Boolean(b) => b.serialise(),
            RespElement::Null => Null.serialise(),
        }
    }
}

impl RespSerialise for Vec<RespElement> {
    open spec fn encoding(&self) -> Seq<u8> {
        RespValue::Array(views_of(self@)).wire()
    }

    fn serialise(&self) -> (bytes: Vec<u8>)
        decreases self,
    {
        let ghost items = views_of(self@);
        let mut out: Vec<u8> = Vec::new();
        out.push(SIGIL_ARRAY);
        push_decimal(&mut out, self.len() as u64);
        push_crlf(&mut out);
        let ghost head = out@;
        let mut i: usize = 0;
        while i < self.len()
            invariant
                i <= self.len(),
                items == views_of(self@),
                out@ + RespValue::wire_all(items, i as nat) == head + RespValue::wire_all(items, 0),
            decreases self.len() - i,
        {
            let part = self[i].serialise();
            out.extend_from_slice(part.as_slice());
            i += 1;
        }
        out
    }
}

/// The bytes do not start with an element of the kind that was asked for.
#[derive(Debug, Clone, Copy, PartialEq, Eq)]
pub struct ParseError;

/// The rest of `input` from `pos` on.
fn rest_from(input: &[u8], pos: usize) -> (rest: &[u8])
    requires
        pos <= input.len(),
    ensures
        rest@ == input@.subrange(pos as int, input@.len() as int),
{
    slice_subrange(input, pos, input.len())
}

/// `lit` stands in `input` at `pos`.
fn starts_with_at(input: &[u8], pos: usize, lit: &[u8]) -> (found: bool)
    requires
        pos <= input.len(),
    ensures
        found == literal_at(input@, pos as int, lit@),
{
    if input.len() - pos < lit.len() {
        return false;
    }
    let mut i: usize = 0;
    while i < lit.len()
        invariant
            i <= lit.len(),
            pos + lit.len() <= input.len(),
            forall|k: int| 0 <= k < i ==> input@[pos + k] == lit@[k],
        decreases lit.len() - i,
    {
        if input[pos + i] != lit[i] {
            assert(input@.subrange(pos as int, pos + lit.len())[i as int] == input@[pos + i]);
            return false;
        }
        i += 1;
    }
    assert(input@.subrange(pos as int, pos + lit.len()) =~= lit@);
    true
}

/// A line terminator stands in `input` at `pos`.
fn crlf_at(input: &[u8], pos: usize) -> (found: bool)
    requires
        pos <= input.len(),
    ensures
        found == is_crlf_at(input@, pos as int),
{
    input.len() - pos >= 2 && input[pos] == CR && input[pos + 1] == LF
}

/// The position of the first CR or LF at or after `pos`.
fn scan_line(input: &[u8], pos: usize) -> (end: usize)
    requires
        pos <= input.len(),
    ensures
        end == line_end(input@, pos as int),
        pos <= end <= input.len(),
{
    let mut i: usize = pos;
    while i < input.len() && input[i] != CR && input[i] != LF
        invariant
            pos <= i <= input.len(),
            line_end(input@, pos as int) == line_end(input@, i as int),
        decreases input.len() - i,
    {
        i += 1;
    }
    i
}

/// The text from `pos` to the next line break, and where that is.
fn text_from(input: &[u8], pos: usize) -> (r: Option<(String, usize)>)
    requires
        pos <= input.len(),
    ensures
        match r {
            Some((text, end)) => text_at(input@, pos as int) == Some((text@, end as int)) && pos
                <= end <= input.len(),
            None => text_at(input@, pos as int) is None,
        },
{
    let end = scan_line(input, pos);
    match text_of(slice_subrange(input, pos, end)) {
        Some(text) => Some((text, end)),
        None => None,
    }
}

/// The line of text at `pos`, and the position after its terminator.
fn text_line_from(input: &[u8], pos: usize) -> (r: Option<(String, usize)>)
    requires
        pos <= input.len(),
    ensures
        match r {
            Some((text, end)) => text_line_at(input@, pos as int) == Some((text@, end as int))
                && pos < end <= input.len(),
            None => text_line_at(input@, pos as int) is None,
        },
{
    match text_from(input, pos) {
        Some((text, end)) => if crlf_at(input, end) {
            Some((text, end + 2))
        } else {
            None
        },
        None => None,
    }
}

/// The simple string at `pos`, and the position after it.
fn simple_string_from(input: &[u8], pos: usize) -> (r: Option<(SimpleString, usize)>)
    requires
        pos <= input.len(),
    ensures
        match r {
            Some((text, end)) => simple_string_at(input@, pos as int) == Some(
                (text@, end as int),
            ) && pos < end <= input.len(),
            None => simple_string_at(input@, pos as int) is None,
        },
{
    if pos < input.len() && input[pos] == SIGIL_SIMPLE_STRING {
        match text_line_from(input, pos + 1) {
            Some((text, end)) => Some((SimpleString(text), end)),
            None => None,
        }
    } else {
        None
    }
}

/// The simple error at `pos`, and the position after it.
fn simple_error_from(input: &[u8], pos: usize) -> (r: Option<(SimpleError, usize)>)
    requires
        pos <= input.len(),
    ensures
        match r {
            Some((text, end)) => simple_error_at(input@, pos as int) == Some((text@, end as int))
                && pos < end <= input.len(),
            None => simple_error_at(input@, pos as int) is None,
        },
{
    if pos < input.len() && input[pos] == SIGIL_SIMPLE_ERROR {
        match text_line_from(input, pos + 1) {
            Some((text, end)) => Some((SimpleError(text), end)),
            None => None,
        }
    } else {
        None
    }
}

/// The signed number at `pos`, and the position after its last digit.
fn signed_from(input: &[u8], pos: usize) -> (r: Option<(i64, usize)>)
    requires
        pos <= input.len(),
    ensures
        match r {
            Some((value, end)) => signed_at(input@, pos as int) == Some((value, end as int))
                && pos < end <= input.len(),
            None => signed_at(input@, pos as int) is None,
        },
{
    let negative = pos < input.len() && input[pos] == 45u8;
    let signed = pos < input.len() && (input[pos] == 45u8 || input[pos] == 43u8);
    let start: usize = if signed {
        pos + 1
    } else {
        pos
    };
    let end = scan_digits(input, start);
    if end == start {
        return None;
    }
    match read_digits(input, start, end) {
        None => None,
        Some(magnitude) => {
            if negative {
                if magnitude > 9223372036854775808u64 {
                    None
                } else if magnitude == 9223372036854775808u64 {
                    Some((i64::MIN, end))
                } else {
                    Some((-(magnitude as i64), end))
                }
            } else if magnitude > 9223372036854775807u64 {
                None
            } else {
                Some((magnitude as i64, end))
            }
        },
    }
}

/// The integer at `pos`, and the position after it.
fn integer_from(input: &[u8], pos: usize) -> (r: Option<(i64, usize)>)
    requires
        pos <= input.len(),
    ensures
        match r {
            Some((value, end)) => integer_at(input@, pos as int) == Some((value, end as int))
                && pos < end <= input.len(),
            None => integer_at(input@, pos as int) is None,
        },
{
    if pos < input.len() && input[pos] == SIGIL_INTEGER {
        match signed_from(input, pos + 1) {
            Some((value, end)) => if crlf_at(input, end) {
                Some((value, end + 2))
            } else {
                None
            },
            None => None,
        }
    } else {
        None
    }
}

/// A length or count at `pos`. One that is larger than the whole input is
/// not handed out: nothing that long can follow.
fn length_from(input: &[u8], pos: usize) -> (r: Option<(usize, usize)>)
    requires
        pos <= input.len(),
    ensures
        match r {
            Some((len, body)) => length_at(input@, pos as int) == Some((len as nat, body as int))
                && pos < body <= input.len() && len <= input.len(),
            None => length_at(input@, pos as int) matches Some((len, _)) ==> len > input.len(),
        },
{
    let end = scan_digits(input, pos);
    if end == pos || !crlf_at(input, end) {
        return None;
    }
    match read_digits(input, pos, end) {
        None => None,
        Some(len) => if len > input.len() as u64 {
            None
        } else {
            Some((len as usize, end + 2))
        },
    }
}

/// The bulk string at `pos`, and the position after it.
fn bulk_string_from(input: &[u8], pos: usize) -> (r: Option<(BulkString, usize)>)
    requires
        pos <= input.len(),
    ensures
        match r {
            Some((text, end)) => bulk_string_at(input@, pos as int) == Some((text@, end as int))
                && pos < end <= input.len(),
            None => bulk_string_at(input@, pos as int) is None,
        },
{
    if !(pos < input.len() && input[pos] == SIGIL_BULK_STRING) {
        return None;
    }
    match length_from(input, pos + 1) {
        None => None,
        Some((len, body)) => {
            if input.len() - body < len {
                return None;
            }
            if !crlf_at(input, body + len) {
                return None;
            }
            match text_of(slice_subrange(input, body, body + len)) {
                Some(text) => Some((BulkString(text), body + len + 2)),
                None => None,
            }
        },
    }
}

/// The boolean at `pos`, and the position after it.
fn boolean_from(input: &[u8], pos: usize) -> (r: Option<(bool, usize)>)
    requires
        pos <= input.len(),
    ensures
        match r {
            Some((b, end)) => boolean_at(input@, pos as int) == Some((b, end as int)) && pos
                < end <= input.len(),
            None => boolean_at(input@, pos as int) is None,
        },
{
    let yes: [u8; 4] = [SIGIL_BOOLEAN, 116, CR, LF];
    let no: [u8; 4] = [SIGIL_BOOLEAN, 102, CR, LF];
    assert(yes@ =~= boolean_wire(true));
    assert(no@ =~= boolean_wire(false));
    if starts_with_at(input, pos, yes.as_slice()) {
        Some((true, pos + 4))
    } else if starts_with_at(input, pos, no.as_slice()) {
        Some((false, pos + 4))
    } else {
        None
    }
}

/// The null bulk string stands at `pos`.
fn null_bulk_string_here(input: &[u8], pos: usize) -> (found: bool)
    requires
        pos <= input.len(),
    ensures
        found == literal_at(input@, pos as int, null_bulk_string_wire()),
{
    let lit: [u8; 5] = [SIGIL_BULK_STRING, 45, 49, CR, LF];
    assert(lit@ =~= null_bulk_string_wire());
    starts_with_at(input, pos, lit.as_slice())
}

/// The null array stands at `pos`.
fn null_array_here(input: &[u8], pos: usize) -> (found: bool)
    requires
        pos <= input.len(),
    ensures
        found == literal_at(input@, pos as int, null_array_wire()),
{
    let lit: [u8; 5] = [SIGIL_ARRAY, 45, 49, CR, LF];
    assert(lit@ =~= null_array_wire());
    starts_with_at(input, pos, lit.as_slice())
}

/// The unified null stands at `pos`.
fn null_here(input: &[u8], pos: usize) -> (found: bool)
    requires
        pos <= input.len(),
    ensures
        found == literal_at(input@, pos as int, null_wire()),
{
    let lit: [u8; 3] = [SIGIL_NULL, CR, LF];
    assert(lit@ =~= null_wire());
    starts_with_at(input, pos, lit.as_slice())
}

/// The element at `pos`, and the position after it.
fn element_from(input: &[u8], pos: usize) -> (r: Option<(RespElement, usize)>)
    requires
        pos <= input.len(),
    ensures
        match r {
            Some((element, end)) => element_at(input@, pos as int) == Some(
                (element@, end as int),
            ) && pos < end <= input.len(),
            None => element_at(input@, pos as int) is None,
        },
    decreases input.len() - pos, 1nat,
{
    if pos >= input.len() {
        return None;
    }
    let sigil = input[pos];
    if sigil == SIGIL_SIMPLE_STRING {
        match simple_string_from(input, pos) {
            Some((s, end)) => Some((RespElement::SimpleString(s), end)),
            None => None,
        }
    } else if sigil == SIGIL_SIMPLE_ERROR {
        match simple_error_from(input, pos) {
            Some((e, end)) => Some((RespElement::SimpleError(e), end)),
            None => None,
        }
    } else if sigil == SIGIL_INTEGER {
        match integer_from(input, pos) {
            Some((i, end)) => Some((RespElement::Integer(i), end)),
            None => None,
        }
    } else if sigil == SIGIL_BULK_STRING {
        if null_bulk_string_here(input, pos) {
            Some((RespElement::NullElement(NullBulkString), pos + 5))
        } else {
            match bulk_string_from(input, pos) {
                Some((b, end)) => Some((RespElement::BulkString(b), end)),
                None => None,
            }
        }
    } else if sigil == SIGIL_ARRAY {
        if null_array_here(input, pos) {
            Some((RespElement::NullArray(NullArray), pos + 5))
        } else {
            match array_from(input, pos) {
                Some((items, end)) => {
                    proof {
                        lemma_array_view(items);
                    }
                    Some((RespElement::Array(items), end))
                },
                None => None,
            }
        }
    } else if sigil == SIGIL_BOOLEAN {
        match boolean_from(input, pos) {
            Some((b, end)) => Some((RespElement::Boolean(b), end)),
            None => None,
        }
    } else if sigil == SIGIL_NULL {
        if null_here(input, pos) {
            Some((RespElement::Null, pos + 3))
        } else {
            None
        }
    } else {
        None
    }
}

/// The items of the array at `pos`, and the position after the array.
fn array_from(input: &[u8], pos: usize) -> (r: Option<(Vec<RespElement>, usize)>)
    requires
        pos <= input.len(),
    ensures
        match r {
            Some((items, end)) => array_at(input@, pos as int) == Some(
                (views_of(items@), end as int),
            ) && pos < end <= input.len(),
            None => array_at(input@, pos as int) is None,
        },
    decreases input.len() - pos, 0nat,
{
    if !(pos < input.len() && input[pos] == SIGIL_ARRAY) {
        return None;
    }
    match length_from(input, pos + 1) {
        None => {
            proof {
                if let Some((count, body)) = length_at(input@, pos + 1) {
                    if pos < body <= input@.len() {
                        lemma_items_take_room(input@, body, count);
                    }
                }
            }
            None
        },
        Some((count, body)) => items_from(input, body, count),
    }
}

/// `count` elements in a row, the first at `pos`, and the position after the
/// last.
fn items_from(input: &[u8], pos: usize, count: usize) -> (r: Option<(Vec<RespElement>, usize)>)
    requires
        pos <= input.len(),
    ensures
        match r {
            Some((items, end)) => items_at(input@, pos as int, count as nat) == Some(
                (views_of(items@), end as int),
            ) && pos <= end <= input.len(),
            None => items_at(input@, pos as int, count as nat) is None,
        },
    decreases input.len() - pos, count + 2,
{
    let mut items: Vec<RespElement> = Vec::new();
    let mut cur: usize = pos;
    let mut done: usize = 0;
    while done < count
        invariant
            done <= count,
            pos <= cur <= input.len(),
            items_at(input@, pos as int, count as nat) == graft(
                views_of(items@),
                items_at(input@, cur as int, (count - done) as nat),
            ),
        decreases count - done,
    {
        match element_from(input, cur) {
            None => {
                return None;
            },
            Some((element, next)) => {
                items.push(element);
                cur = next;
                done += 1;
            },
        }
    }
    Some((items, cur))
}

/// What was found, with the rest of the input in place of a position.
fn finish<T>(input: &[u8], found: Option<(T, usize)>) -> (r: Result<(&[u8], T), ParseError>)
    requires
        found matches Some((_, end)) ==> end <= input.len(),
    ensures
        match (found, r) {
            (Some((value, end)), Ok((rest, out))) => out == value && rest@ == input@.subrange(
                end as int,
                input@.len() as int,
            ),
            (None, Err(_)) => true,
            _ => false,
        },
{
    match found {
        Some((value, end)) => Ok((rest_from(input, end), value)),
        None => Err(ParseError),
    }
}

/// Reads text up to the first CR or LF, or to the end of `input`.
///
/// The text may be empty. What is left starts at the line break.
pub fn parse_string(input: &[u8]) -> (r: Result<(&[u8], String), ParseError>)
    ensures
        match r {
            Ok((rest, text)) => text_at(input@, 0) matches Some((t, end)) && text@ == t && rest@
                == input@.subrange(end, input@.len() as int),
            Err(_) => text_at(input@, 0) is None,
        },
{
    finish(input, text_from(input, 0))
}

/// Reads a simple string, `+<text>\r\n`, from the start of `input`.
pub fn parse_simple_string(input: &[u8]) -> (r: Result<(&[u8], SimpleString), ParseError>)
    ensures
        match r {
            Ok((rest, text)) => simple_string_at(input@, 0) matches Some((t, end)) && text@ == t
                && rest@ == input@.subrange(end, input@.len() as int),
            Err(_) => simple_string_at(input@, 0) is None,
        },
{
    finish(input, simple_string_from(input, 0))
}

/// Reads a simple error, `-<text>\r\n`, from the start of `input`.
pub fn parse_simple_error(input: &[u8]) -> (r: Result<(&[u8], SimpleError), ParseError>)
    ensures
        match r {
            Ok((rest, text)) => simple_error_at(input@, 0) matches Some((t, end)) && text@ == t
                && rest@ == input@.subrange(end, input@.len() as int),
            Err(_) => simple_error_at(input@, 0) is None,
        },
{
    finish(input, simple_error_from(input, 0))
}

/// Reads an integer, `:<number>\r\n`, from the start of `input`.
///
/// The number is base 10 and may carry a `+` or a `-`. One that does not fit
/// in 64 bits is refused.
pub fn parse_integer(input: &[u8]) -> (r: Result<(&[u8], i64), ParseError>)
    ensures
        match r {
            Ok((rest, value)) => integer_at(input@, 0) matches Some((v, end)) && value == v
                && rest@ == input@.subrange(end, input@.len() as int),
            Err(_) => integer_at(input@, 0) is None,
        },
{
    finish(input, integer_from(input, 0))
}

/// Reads a bulk string, `$<length>\r\n<bytes>\r\n`, from the start of `input`.
///
/// The length counts bytes. The bytes may hold CR and LF.
pub fn parse_bulk_string(input: &[u8]) -> (r: Result<(&[u8], BulkString), ParseError>)
    ensures
        match r {
            Ok((rest, text)) => bulk_string_at(input@, 0) matches Some((t, end)) && text@ == t
                && rest@ == input@.subrange(end, input@.len() as int),
            Err(_) => bulk_string_at(input@, 0) is None,
        },
{
    finish(input, bulk_string_from(input, 0))
}

/// Reads a boolean, `#t\r\n` or `#f\r\n`, from the start of `input`.
pub fn parse_boolean(input: &[u8]) -> (r: Result<(&[u8], bool), ParseError>)
    ensures
        match r {
            Ok((rest, value)) => boolean_at(input@, 0) matches Some((b, end)) && value == b
                && rest@ == input@.subrange(end, input@.len() as int),
            Err(_) => boolean_at(input@, 0) is None,
        },
{
    finish(input, boolean_from(input, 0))
}

/// Reads one element from the start of `input`.
///
/// On success gives the element and what is left of `input` after it. The
/// element is well-formed and took at least one byte. On failure nothing has
/// been consumed.
pub fn parse_element(input: &[u8]) -> (r: Result<(&[u8], RespElement), ParseError>)
    ensures
        match r {
            Ok((rest, element)) => element_at(input@, 0) matches Some((v, end)) && element@ == v
                && rest@ == input@.subrange(end, input@.len() as int) && element@.wf()
                && rest@.len() < input@.len(),
            Err(_) => element_at(input@, 0) is None,
        },
{
    proof {
        crate::round_trip::law_decoded_is_well_formed(input@, 0);
    }
    finish(input, element_from(input, 0))
}

/// Reads an array, `*<count>\r\n` and then `count` elements, from the start
/// of `input`.
pub fn parse_array(input: &[u8]) -> (r: Result<(&[u8], Vec<RespElement>), ParseError>)
    ensures
        match r {
            Ok((rest, items)) => array_at(input@, 0) matches Some((v, end)) && views_of(items@)
                == v && rest@ == input@.subrange(end, input@.len() as int),
            Err(_) => array_at(input@, 0) is None,
        },
{
    finish(input, array_from(input, 0))
}

/// Reads the null array, `*-1\r\n`, from the start of `input`.
pub fn parse_null_array(input: &[u8]) -> (r: Result<(&[u8], NullArray), ParseError>)
    ensures
        r is Ok <==> literal_at(input@, 0, null_array_wire()),
        r matches Ok((rest, _)) ==> rest@ == input@.subrange(5, input@.len() as int),
{
    if null_array_here(input, 0) {
        Ok((rest_from(input, 5), NullArray))
    } else {
        Err(ParseError)
    }
}

/// Reads the null bulk string, `$-1\r\n`, from the start of `input`.
pub fn parse_null_bulk_string(input: &[u8]) -> (r: Result<(&[u8], NullBulkString), ParseError>)
    ensures
        r is Ok <==> literal_at(input@, 0, null_bulk_string_wire()),
        r matches Ok((rest, _)) ==> rest@ == input@.subrange(5, input@.len() as int),
{
    if null_bulk_string_here(input, 0) {
        Ok((rest_from(input, 5), NullBulkString))
    } else {
        Err(ParseError)
    }
}

/// Reads the unified null, `_\r\n`, from the start of `input`.
pub fn parse_null(input: &[u8]) -> (r: Result<(&[u8], Null), ParseError>)
    ensures
        r is Ok <==> literal_at(input@, 0, null_wire()),
        r matches Ok((rest, _)) ==> rest@ == input@.subrange(3, input@.len() as int),
{
    if null_here(input, 0) {
        Ok((rest_from(input, 3), Null))
    } else {
        Err(ParseError)
    }
}

} // verus!
