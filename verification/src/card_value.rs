//! The integer that the value field of a record holds.
//!
//! The field is read in free format: spaces, an optional sign, decimal
//! digits, spaces, and then either the end of the field or a `/` that starts
//! a comment.
use vstd::prelude::*;

verus! {

/// The space character, which pads every field of a record.
pub const SPACE: u8 = ' ' as u8;

/// The character that starts the comment of a record.
pub const SLASH: u8 = '/' as u8;

/// The plus sign.
pub const PLUS: u8 = '+' as u8;

/// The minus sign.
pub const MINUS: u8 = '-' as u8;

/// The digit zero; the other nine digits follow it.
pub const ZERO: u8 = '0' as u8;

/// Whether `byte` is one of the ten decimal digits.
pub open spec fn spec_is_digit(byte: u8) -> bool {
    ZERO <= byte <= ZERO + 9
}

/// Whether `byte` is one of the ten decimal digits.
#[verifier::when_used_as_spec(spec_is_digit)]
pub fn is_digit(byte: u8) -> (yes: bool)
    ensures
        yes == spec_is_digit(byte),
{
    ZERO <= byte && byte <= ZERO + 9
}

/// The number that a run of decimal digits spells.
pub open spec fn decimal(digits: Seq<u8>) -> nat
    decreases digits.len(),
{
    if digits.len() == 0 {
        0
    } else {
        decimal(digits.drop_last()) * 10 + (digits.last() - ZERO) as nat
    }
}

/// The first place at or after `from` where `field` holds something other
/// than a space, or the length of `field` if only spaces follow.
pub open spec fn spec_skip_spaces(field: Seq<u8>, from: int) -> int
    decreases field.len() - from,
{
    if 0 <= from < field.len() && field[from] == SPACE {
        spec_skip_spaces(field, from + 1)
    } else {
        from
    }
}

/// The first place at or after `from` where `field` holds something other
/// than a digit, or the length of `field` if only digits follow.
pub open spec fn spec_skip_digits(field: Seq<u8>, from: int) -> int
    decreases field.len() - from,
{
    if 0 <= from < field.len() && is_digit(field[from]) {
        spec_skip_digits(field, from + 1)
    } else {
        from
    }
}

/// The largest magnitude that a signed number of 64 bits can have.
pub const MAGNITUDE_LIMIT: u64 = 0x8000_0000_0000_0000;

/// The number that a run of decimal digits spells, unless it is above
/// `MAGNITUDE_LIMIT`.
pub open spec fn spec_magnitude(digits: Seq<u8>) -> Option<u64> {
    if decimal(digits) <= MAGNITUDE_LIMIT {
        Some(decimal(digits) as u64)
    } else {
        None
    }
}

/// The integer that `field` spells in free format, whatever its size, or
/// `None` where `field` is not an integer followed by nothing but spaces and
/// perhaps a comment.
pub open spec fn spec_integer(field: Seq<u8>) -> Option<int> {
    let start = spec_skip_spaces(field, 0);
    let negative = start < field.len() && field[start] == MINUS;
    let signed = start < field.len() && (field[start] == MINUS || field[start] == PLUS);
    let first = if signed {
        start + 1
    } else {
        start
    };
    let last = spec_skip_digits(field, first);
    let stop = spec_skip_spaces(field, last);
    if first < last && (stop == field.len() || field[stop] == SLASH) {
        let magnitude = decimal(field.subrange(first, last));
        Some(
            if negative {
                -magnitude
            } else {
                magnitude as int
            },
        )
    } else {
        None
    }
}

/// The integer that `field` spells, if it spells one that a signed number
/// of 64 bits can hold.
pub open spec fn spec_parse_integer(field: Seq<u8>) -> Option<i64> {
    match spec_integer(field) {
        Some(value) if i64::MIN <= value <= i64::MAX => Some(value as i64),
        _ => None,
    }
}

/// The first place at or after `from` where `field` holds something other
/// than a space.
pub fn skip_spaces(field: &[u8], from: usize) -> (to: usize)
    requires
        from <= field@.len(),
    ensures
        to == spec_skip_spaces(field@, from as int),
        from <= to <= field@.len(),
{
    let mut to: usize = from;
    while to < field.len() && field[to] == SPACE
        invariant
            from <= to <= field@.len(),
            spec_skip_spaces(field@, from as int) == spec_skip_spaces(field@, to as int),
        decreases field@.len() - to,
    {
        to = to + 1;
    }
    to
}

/// Reads the run of digits of `field` that starts at `from`: where the run
/// ends, and the number that it spells unless that number is above
/// `MAGNITUDE_LIMIT`.
pub fn read_digits(field: &[u8], from: usize) -> (run: (usize, Option<u64>))
    requires
        from <= field@.len(),
    ensures
        run.0 == spec_skip_digits(field@, from as int),
        from <= run.0 <= field@.len(),
        run.1 == spec_magnitude(field@.subrange(from as int, run.0 as int)),
        forall|i: int| from <= i < run.0 ==> is_digit(#[trigger] field@[i]),
{
    let mut magnitude: Option<u64> = Some(0);
    let mut last: usize = from;
    while last < field.len() && is_digit(field[last])
        invariant
            from <= last <= field@.len(),
            spec_skip_digits(field@, from as int) == spec_skip_digits(field@, last as int),
            magnitude == spec_magnitude(field@.subrange(from as int, last as int)),
            forall|i: int| from <= i < last ==> is_digit(#[trigger] field@[i]),
        decreases field@.len() - last,
    {
        proof {
            assert(field@.subrange(from as int, last + 1).drop_last() =~= field@.subrange(
                from as int,
                last as int,
            ));
        }
        magnitude =
        match magnitude {
            Some(so_far) => {
                let next: u128 = so_far as u128 * 10 + (field[last] - ZERO) as u128;
                if next > MAGNITUDE_LIMIT as u128 {
                    None
                } else {
                    Some(next as u64)
                }
            },
            None => None,
        };
        last = last + 1;
    }
    (last, magnitude)
}

/// The integer that `field` spells in free format: spaces, an optional sign,
/// digits, spaces, and then the end of the field or a comment. `None` where
/// the field has another shape or the integer does not fit.
pub fn parse_integer(field: &[u8]) -> (value: Option<i64>)
    ensures
        value == spec_parse_integer(field@),
{
    let start = skip_spaces(field, 0);
    let negative = start < field.len() && field[start] == MINUS;
    let signed = start < field.len() && (field[start] == MINUS || field[start] == PLUS);
    let first: usize = if signed {
        start + 1
    } else {
        start
    };
    let (last, magnitude) = read_digits(field, first);
    let stop = skip_spaces(field, last);
    if first < last && (stop == field.len() || field[stop] == SLASH) {
        match magnitude {
            Some(magnitude) => {
                if negative {
                    if magnitude == MAGNITUDE_LIMIT {
                        Some(i64::MIN)
                    } else {
                        Some(-(magnitude as i64))
                    }
                } else if magnitude == MAGNITUDE_LIMIT {
                    None
                } else {
                    Some(magnitude as i64)
                }
            },
            None => None,
        }
    } else {
        None
    }
}

} // verus!
