//! Base-10 numbers as they appear on the wire: runs of ASCII digits.

use vstd::prelude::*;

verus! {

/// The byte `b` is one of the ASCII digits `0` to `9`.
pub open spec fn is_digit(b: u8) -> bool {
    48 <= b && b <= 57
}

/// The first position at or after `pos` that does not hold a digit.
pub open spec fn digits_end(s: Seq<u8>, pos: int) -> int
    decreases s.len() - pos,
{
    if 0 <= pos < s.len() && is_digit(s[pos]) {
        digits_end(s, pos + 1)
    } else {
        pos
    }
}

/// The number that the digits of `s` in `from..to` spell in base 10.
pub open spec fn digits_value(s: Seq<u8>, from: int, to: int) -> nat
    decreases to - from,
{
    if to <= from {
        0
    } else {
        10 * digits_value(s, from, to - 1) + (s[to - 1] - 48) as nat
    }
}

/// Every byte of `s` in `from..to` is a digit.
pub open spec fn all_digits(s: Seq<u8>, from: int, to: int) -> bool {
    forall|i: int| from <= i < to ==> is_digit(#[trigger] s[i])
}

/// The shortest base-10 spelling of `n`.
pub open spec fn decimal_nat(n: nat) -> Seq<u8>
    decreases n,
{
    if n < 10 {
        seq![(48 + n) as u8]
    } else {
        decimal_nat(n / 10).push((48 + n % 10) as u8)
    }
}

/// The base-10 spelling of `i`, with a leading `-` when it is negative.
pub open spec fn decimal_int(i: int) -> Seq<u8> {
    if i < 0 {
        seq![45u8] + decimal_nat((-i) as nat)
    } else {
        decimal_nat(i as nat)
    }
}

/// The number that `bytes` spell as a whole: an optional `+`, then digits and
/// nothing else, at least one. Nothing if the number does not fit in 64 bits.
pub open spec fn unsigned_of(bytes: Seq<u8>) -> Option<u64> {
    let start: int = if bytes.len() > 0 && bytes[0] == 43u8 {
        1
    } else {
        0
    };
    let value = digits_value(bytes, start, bytes.len() as int);
    if start < bytes.len() && digits_end(bytes, start) == bytes.len() && value <= u64::MAX {
        Some(value as u64)
    } else {
        None
    }
}

/// A run of digits reaches exactly to the first byte that is not a digit.
pub proof fn lemma_digits_end_run(s: Seq<u8>, from: int, to: int)
    requires
        0 <= from <= to <= s.len(),
        all_digits(s, from, to),
        to == s.len() || !is_digit(s[to]),
    ensures
        digits_end(s, from) == to,
    decreases to - from,
{
    if from < to {
        lemma_digits_end_run(s, from + 1, to);
    }
}

/// A run of digits ends at or after its start, and within `s`.
pub proof fn lemma_digits_end_bounds(s: Seq<u8>, pos: int)
    requires
        0 <= pos <= s.len(),
    ensures
        pos <= digits_end(s, pos) <= s.len(),
    decreases s.len() - pos,
{
    if pos < s.len() && is_digit(s[pos]) {
        lemma_digits_end_bounds(s, pos + 1);
    }
}

/// Reading more digits never makes the number smaller.
pub proof fn lemma_digits_value_grows(s: Seq<u8>, from: int, mid: int, to: int)
    requires
        from <= mid <= to,
        all_digits(s, from, to),
    ensures
        digits_value(s, from, mid) <= digits_value(s, from, to),
    decreases to - mid,
{
    if mid < to {
        lemma_digits_value_grows(s, from, mid, to - 1);
    }
}

/// The number a run of digits spells depends on those digits alone.
pub proof fn lemma_digits_value_local(a: Seq<u8>, a_from: int, b: Seq<u8>, b_from: int, len: int)
    requires
        0 <= len,
        0 <= a_from,
        a_from + len <= a.len(),
        0 <= b_from,
        b_from + len <= b.len(),
        a.subrange(a_from, a_from + len) == b.subrange(b_from, b_from + len),
    ensures
        digits_value(a, a_from, a_from + len) == digits_value(b, b_from, b_from + len),
    decreases len,
{
    if len > 0 {
        let x = a.subrange(a_from, a_from + len);
        let y = b.subrange(b_from, b_from + len);
        assert(a.subrange(a_from, a_from + len - 1) =~= x.subrange(0, len - 1));
        assert(b.subrange(b_from, b_from + len - 1) =~= y.subrange(0, len - 1));
        lemma_digits_value_local(a, a_from, b, b_from, len - 1);
        assert(a[a_from + len - 1] == x[len - 1]);
    }
}

/// The spelling of a number is a non-empty run of digits.
pub proof fn lemma_decimal_nat_digits(n: nat)
    ensures
        decimal_nat(n).len() >= 1,
        all_digits(decimal_nat(n), 0, decimal_nat(n).len() as int),
    decreases n,
{
    if n >= 10 {
        lemma_decimal_nat_digits(n / 10);
    }
}

/// Reading the spelling of `n` gives `n` back.
pub proof fn lemma_decimal_nat_value(n: nat)
    ensures
        digits_value(decimal_nat(n), 0, decimal_nat(n).len() as int) == n,
    decreases n,
{
    let d = decimal_nat(n);
    if n < 10 {
        assert(digits_value(d, 0, 0) == 0);
    } else {
        let head = decimal_nat(n / 10);
        lemma_decimal_nat_value(n / 10);
        lemma_decimal_nat_digits(n / 10);
        assert(d.subrange(0, head.len() as int) =~= head.subrange(0, head.len() as int));
        lemma_digits_value_local(d, 0, head, 0, head.len() as int);
    }
}

/// The end of the run of digits that starts at `pos`.
pub(crate) fn scan_digits(input: &[u8], pos: usize) -> (end: usize)
    requires
        pos <= input.len(),
    ensures
        end == digits_end(input@, pos as int),
        pos <= end <= input.len(),
        all_digits(input@, pos as int, end as int),
{
    let mut i: usize = pos;
    while i < input.len() && input[i] >= 48 && input[i] <= 57
        invariant
            pos <= i <= input.len(),
            digits_end(input@, pos as int) == digits_end(input@, i as int),
            all_digits(input@, pos as int, i as int),
        decreases input.len() - i,
    {
        i += 1;
    }
    i
}

/// The number that the digits in `from..to` spell, if it fits in a `u64`.
pub(crate) fn read_digits(input: &[u8], from: usize, to: usize) -> (value: Option<u64>)
    requires
        from <= to <= input.len(),
        all_digits(input@, from as int, to as int),
    ensures
        value == if digits_value(input@, from as int, to as int) <= u64::MAX {
            Some(digits_value(input@, from as int, to as int) as u64)
        } else {
            None
        },
{
    let mut acc: u64 = 0;
    let mut i: usize = from;
    while i < to
        invariant
            from <= i <= to <= input.len(),
            all_digits(input@, from as int, to as int),
            acc == digits_value(input@, from as int, i as int),
        decreases to - i,
    {
        let d: u64 = (input[i] - 48) as u64;
        if acc > (u64::MAX - d) / 10 {
            proof {
                lemma_digits_value_grows(input@, from as int, i + 1, to as int);
            }
            return None;
        }
        acc = acc * 10 + d;
        i += 1;
    }
    Some(acc)
}

/// Reads `bytes` as a whole as an unsigned number.
pub fn parse_unsigned(bytes: &[u8]) -> (value: Option<u64>)
    ensures
        value == unsigned_of(bytes@),
{
    let start: usize = if bytes.len() > 0 && bytes[0] == 43u8 {
        1
    } else {
        0
    };
    if start >= bytes.len() {
        return None;
    }
    let end = scan_digits(bytes, start);
    if end != bytes.len() {
        return None;
    }
    read_digits(bytes, start, end)
}

/// Appends the shortest base-10 spelling of `n` to `out`.
pub(crate) fn push_decimal(out: &mut Vec<u8>, n: u64)
    ensures
        final(out)@ == old(out)@ + decimal_nat(n as nat),
    decreases n,
{
    if n >= 10 {
        push_decimal(out, n / 10);
    }
    out.push(48 + (n % 10) as u8);
}

} // verus!
