//! The colour range of a marker and the text it is written in.
//!
//! A range is written as six whole numbers with commas between them: the
//! three lower bounds, then the three upper bounds. A number is decimal
//! digits, with a `+` or `-` before them at will, and nothing else: no
//! spaces and no line end. What follows a sixth comma is not read.

use vstd::prelude::*;
use crate::error::ConfigurationError;

verus! {

/// The range of colours that counts as one marker: a lower and an upper
/// bound for each of the three channels.
#[derive(Clone, Copy, Debug, PartialEq, Eq)]
pub struct ColorRange {
    pub low: [i32; 3],
    pub high: [i32; 3],
}

/// The byte that separates two numbers.
pub const COMMA: u8 = 44;

/// Whether the byte is a decimal digit.
pub open spec fn is_digit(b: u8) -> bool {
    48 <= b <= 57
}

/// The number that a sequence of decimal digits denotes.
pub open spec fn digits_value(digits: Seq<u8>) -> nat
    decreases digits.len(),
{
    if digits.len() == 0 {
        0
    } else {
        digits_value(digits.drop_last()) * 10 + (digits.last() - 48) as nat
    }
}

/// Whether the bytes are decimal digits, and at least one.
pub open spec fn is_digits(digits: Seq<u8>) -> bool {
    digits.len() > 0 && forall|i: int| 0 <= i < digits.len() ==> is_digit(#[trigger] digits[i])
}

/// Whether a field begins with a sign.
pub open spec fn is_signed(field: Seq<u8>) -> bool {
    field.len() > 0 && (field[0] == 45 || field[0] == 43)
}

/// The digits of a field: all of it but its sign.
pub open spec fn field_digits(field: Seq<u8>) -> Seq<u8> {
    if is_signed(field) {
        field.skip(1)
    } else {
        field
    }
}

/// The number that a field of digits behind an optional sign denotes.
pub open spec fn signed_value(field: Seq<u8>) -> int {
    if is_signed(field) && field[0] == 45 {
        -(digits_value(field_digits(field)) as int)
    } else {
        digits_value(field_digits(field)) as int
    }
}

/// The number that a field denotes, if it is written as one and fits `i32`.
pub open spec fn field_value(field: Seq<u8>) -> Option<int> {
    if is_digits(field_digits(field)) && i32::MIN <= signed_value(field) <= i32::MAX {
        Some(signed_value(field))
    } else {
        None
    }
}

/// Where the field that begins at `start` ends: at the next comma, or at the
/// end of the text.
pub open spec fn field_end(text: Seq<u8>, start: int) -> int
    decreases text.len() - start,
{
    if start < 0 || start >= text.len() || text[start] == COMMA {
        start
    } else {
        field_end(text, start + 1)
    }
}

/// Where field `k` begins, if the text has that many fields.
pub open spec fn field_start(text: Seq<u8>, k: nat) -> Option<int>
    decreases k,
{
    if k == 0 {
        Some(0)
    } else {
        match field_start(text, (k - 1) as nat) {
            None => None,
            Some(start) => {
                let end = field_end(text, start);
                if end < text.len() {
                    Some(end + 1)
                } else {
                    None
                }
            },
        }
    }
}

/// The number in field `k`, if the text has that field and it denotes one.
pub open spec fn number_at(text: Seq<u8>, k: nat) -> Option<int> {
    match field_start(text, k) {
        None => None,
        Some(start) => field_value(text.subrange(start, field_end(text, start))),
    }
}

/// Whether the text is a colour range: its first six fields are numbers.
pub open spec fn is_color_range(text: Seq<u8>) -> bool {
    forall|k: nat| k < 6 ==> (#[trigger] number_at(text, k)) is Some
}

proof fn lemma_field_end_bounds(text: Seq<u8>, start: int)
    requires
        0 <= start <= text.len(),
    ensures
        start <= field_end(text, start) <= text.len(),
        forall|i: int| start <= i < field_end(text, start) ==> text[i] != COMMA,
        field_end(text, start) < text.len() ==> text[field_end(text, start)] == COMMA,
    decreases text.len() - start,
{
    if start < text.len() && text[start] != COMMA {
        lemma_field_end_bounds(text, start + 1);
    }
}

proof fn lemma_digits_grow(digits: Seq<u8>, n: int)
    requires
        0 <= n <= digits.len(),
        is_digits(digits),
    ensures
        digits_value(digits.take(n)) <= digits_value(digits),
    decreases digits.len() - n,
{
    if n < digits.len() {
        let longer = digits.take(n + 1);
        assert(longer.drop_last() =~= digits.take(n));
        assert(is_digit(digits[n]));
        lemma_digits_grow(digits, n + 1);
    } else {
        assert(digits.take(n) =~= digits);
    }
}

/// The number that the bytes from `start` up to `end` denote.
fn parse_field(text: &[u8], start: usize, end: usize) -> (r: Option<i32>)
    requires
        start <= end <= text@.len(),
    ensures
        r is Some <==> field_value(text@.subrange(start as int, end as int)) is Some,
        r matches Some(v) ==> field_value(text@.subrange(start as int, end as int)) == Some(
            v as int,
        ),
{
    let ghost field = text@.subrange(start as int, end as int);
    if start == end {
        return None;
    }
    let first = text[start];
    assert(first == field[0]);
    let signed = first == 45 || first == 43;
    let negative = first == 45;
    let from: usize = if signed {
        start + 1
    } else {
        start
    };
    let ghost digits = field_digits(field);
    assert(digits =~= text@.subrange(from as int, end as int));
    if from == end {
        return None;
    }
    let mut value: i64 = 0;
    let mut i: usize = from;
    assert(digits.take(0) =~= Seq::<u8>::empty());
    while i < end
        invariant
            from <= i <= end,
            end <= text@.len(),
            start <= from,
            field == text@.subrange(start as int, end as int),
            digits == field_digits(field),
            digits == text@.subrange(from as int, end as int),
            forall|j: int| 0 <= j < i - from ==> is_digit(#[trigger] digits[j]),
            value == digits_value(digits.take(i - from)),
            0 <= value <= 0x8000_0000,
        decreases end - i,
    {
        let b = text[i];
        assert(b == digits[i - from]);
        if b < 48 || b > 57 {
            assert(!is_digit(digits[i - from]));
            return None;
        }
        let ghost seen = digits.take(i - from + 1);
        assert(seen.drop_last() =~= digits.take(i - from));
        value = value * 10 + (b - 48) as i64;
        if value > 0x8000_0000 {
            proof {
                if is_digits(digits) {
                    lemma_digits_grow(digits, i - from + 1);
                }
            }
            return None;
        }
        i += 1;
    }
    assert(digits.take(end - from) =~= digits);
    if negative {
        Some((-value) as i32)
    } else if value > 0x7fff_ffff {
        None
    } else {
        Some(value as i32)
    }
}

/// Reads a colour range from its text.
///
/// The text is malformed where it has fewer than six fields, or where one of
/// the first six is not a number that fits `i32`.
pub fn parse_color_range(text: &[u8]) -> (r: Result<ColorRange, ConfigurationError>)
    ensures
        r is Ok <==> is_color_range(text@),
        r matches Err(e) ==> e == ConfigurationError::MalformedColorRange,
        r matches Ok(range) ==> {
            &&& forall|k: int| 0 <= k < 3 ==> Some(#[trigger] range.low@[k] as int) == number_at(text@, k as nat)
            &&& forall|k: int| 0 <= k < 3 ==> Some(#[trigger] range.high@[k] as int) == number_at(text@, (k + 3) as nat)
        },
{
    let mut numbers: Vec<i32> = Vec::new();
    let mut start: usize = 0;
    let mut k: usize = 0;
    while k < 6
        invariant
            k <= 5,
            numbers@.len() == k,
            start <= text@.len(),
            field_start(text@, k as nat) == Some(start as int),
            forall|j: nat| j < k ==> number_at(text@, j) == Some(#[trigger] numbers@[j as int] as int),
        decreases 6 - k,
    {
        let mut end: usize = start;
        while end < text.len() && text[end] != COMMA
            invariant
                start <= end <= text@.len(),
                field_end(text@, start as int) == field_end(text@, end as int),
            decreases text@.len() - end,
        {
            end += 1;
        }
        proof {
            lemma_field_end_bounds(text@, start as int);
            assert(field_end(text@, end as int) == end);
        }
        match parse_field(text, start, end) {
            None => {
                assert(number_at(text@, k as nat) is None);
                return Err(ConfigurationError::MalformedColorRange);
            },
            Some(v) => {
                numbers.push(v);
            },
        }
        if k < 5 {
            if end >= text.len() {
                assert(field_start(text@, (k + 1) as nat) is None);
                assert(number_at(text@, (k + 1) as nat) is None);
                return Err(ConfigurationError::MalformedColorRange);
            }
            start = end + 1;
        } else {
            // The sixth field is the last that is read.
            proof {
                assert forall|j: nat| j < 6 implies (#[trigger] number_at(text@, j)) is Some by {
                    assert(number_at(text@, j) == Some(numbers@[j as int] as int));
                }
            }
            let range = ColorRange {
                low: [numbers[0], numbers[1], numbers[2]],
                high: [numbers[3], numbers[4], numbers[5]],
            };
            proof {
                assert forall|i: int| 0 <= i < 3 implies Some(#[trigger] range.low@[i] as int)
                    == number_at(text@, i as nat) by {
                    assert(number_at(text@, i as nat) == Some(numbers@[i] as int));
                }
                assert forall|i: int| 0 <= i < 3 implies Some(#[trigger] range.high@[i] as int)
                    == number_at(text@, (i + 3) as nat) by {
                    assert(number_at(text@, (i + 3) as nat) == Some(numbers@[i + 3] as int));
                }
            }
            return Ok(range);
        }
        k += 1;
    }
    Err(ConfigurationError::MalformedColorRange)
}

} // verus!
