//! The cards of a header: what one 80 byte record says.
//!
//! A record holds a keyword in its first eight bytes, padded with spaces on
//! the right. Where the card has a value, bytes 8 and 9 hold the value
//! indicator `= ` and the rest holds the value and perhaps a comment.
use crate::card_value::{
    decimal, is_digit, parse_integer, read_digits, spec_parse_integer, spec_skip_digits, SPACE,
};
use crate::error::Error;
use vstd::prelude::*;
use vstd::slice::slice_subrange;

verus! {

/// The element type of the data unit, as the `BITPIX` card selects it.
#[derive(Clone, Copy, Debug, PartialEq, Eq, Structural)]
pub enum BitpixValue {
    /// Code 8: unsigned integers of 8 bits.
    U8,
    /// Code 16: two's complement integers of 16 bits.
    I16,
    /// Code 32: two's complement integers of 32 bits.
    I32,
    /// Code 64: two's complement integers of 64 bits.
    I64,
    /// Code -32: IEEE 754 numbers of 32 bits.
    F32,
    /// Code -64: IEEE 754 numbers of 64 bits.
    F64,
}

impl BitpixValue {
    /// The number of bytes that one element takes in the data unit.
    pub open spec fn spec_width(self) -> nat {
        match self {
            BitpixValue::U8 => 1,
            BitpixValue::I16 => 2,
            BitpixValue::I32 => 4,
            BitpixValue::I64 => 8,
            BitpixValue::F32 => 4,
            BitpixValue::F64 => 8,
        }
    }

    /// The number of bytes that one element takes in the data unit.
    pub fn width(self) -> (width: usize)
        ensures
            width == self.spec_width(),
    {
        match self {
            BitpixValue::U8 => 1,
            BitpixValue::I16 => 2,
            BitpixValue::I32 => 4,
            BitpixValue::I64 => 8,
            BitpixValue::F32 => 4,
            BitpixValue::F64 => 8,
        }
    }

    /// The element type that the integer `code` of a `BITPIX` card selects,
    /// if it selects one.
    pub open spec fn spec_from_code(code: int) -> Option<BitpixValue> {
        if code == 8 {
            Some(BitpixValue::U8)
        } else if code == 16 {
            Some(BitpixValue::I16)
        } else if code == 32 {
            Some(BitpixValue::I32)
        } else if code == 64 {
            Some(BitpixValue::I64)
        } else if code == -32 {
            Some(BitpixValue::F32)
        } else if code == -64 {
            Some(BitpixValue::F64)
        } else {
            None
        }
    }

    /// The element type that the integer `code` of a `BITPIX` card selects:
    /// one of the six for 8, 16, 32, 64, -32 and -64, none for any other.
    pub fn from_code(code: i64) -> (bitpix: Option<BitpixValue>)
        ensures
            bitpix == Self::spec_from_code(code as int),
    {
        if code == 8 {
            Some(BitpixValue::U8)
        } else if code == 16 {
            Some(BitpixValue::I16)
        } else if code == 32 {
            Some(BitpixValue::I32)
        } else if code == 64 {
            Some(BitpixValue::I64)
        } else if code == -32 {
            Some(BitpixValue::F32)
        } else if code == -64 {
            Some(BitpixValue::F64)
        } else {
            None
        }
    }
}

/// The length of a header record in bytes.
pub const RECORD_LEN: usize = 80;

/// The length of the keyword field, which opens a record.
pub const KEYWORD_LEN: usize = 8;

/// The place in a record where the value field starts.
pub const VALUE_START: usize = 10;

/// The equals sign, which opens the value indicator.
pub const EQUALS: u8 = '=' as u8;

/// The keyword of the card that opens a primary header.
pub const SIMPLE: [u8; 6] = ['S' as u8, 'I' as u8, 'M' as u8, 'P' as u8, 'L' as u8, 'E' as u8];

/// The keyword of the card that gives the element type.
pub const BITPIX: [u8; 6] = ['B' as u8, 'I' as u8, 'T' as u8, 'P' as u8, 'I' as u8, 'X' as u8];

/// The keyword of the card that gives the number of axes. Followed by the
/// number of an axis it is the keyword of the card that gives its size.
pub const NAXIS: [u8; 5] = ['N' as u8, 'A' as u8, 'X' as u8, 'I' as u8, 'S' as u8];

/// The keyword of the card that closes a header.
pub const END: [u8; 3] = ['E' as u8, 'N' as u8, 'D' as u8];

/// What a card says, by its keyword.
#[derive(Clone, Copy, Debug, PartialEq, Eq, Structural)]
pub enum FITSHeaderKeyword {
    /// `SIMPLE`: the file is a FITS file. Its value is not read.
    Simple,
    /// `BITPIX`: the element type of the data unit.
    Bitpix(BitpixValue),
    /// `NAXIS`: the number of axes of the data unit.
    Naxis(usize),
    /// `NAXISn`: the size of axis `idx`, counted from 1.
    NaxisSize { idx: usize, size: usize },
    /// Any other keyword. The card keeps its place in the header and its
    /// value is not read.
    Other,
    /// `END`: the header ends with this record.
    End,
}

/// `field` without the spaces at its end.
pub open spec fn spec_trim(field: Seq<u8>) -> Seq<u8>
    decreases field.len(),
{
    if field.len() > 0 && field.last() == SPACE {
        spec_trim(field.drop_last())
    } else {
        field
    }
}

/// The keyword of a record: its first eight bytes without the spaces that
/// pad them.
pub open spec fn spec_keyword_name(record: Seq<u8>) -> Seq<u8> {
    spec_trim(record.subrange(0, KEYWORD_LEN as int))
}

/// The number of the axis that the keyword `name` speaks of: `name` is
/// `NAXIS` followed by one to three digits and nothing else.
pub open spec fn spec_axis_index(name: Seq<u8>) -> Option<usize> {
    if 5 < name.len() <= KEYWORD_LEN && name.subrange(0, 5) == NAXIS@ && spec_skip_digits(name, 5)
        == name.len() {
        Some(decimal(name.subrange(5, name.len() as int)) as usize)
    } else {
        None
    }
}

/// Whether bytes 8 and 9 of `record` are the value indicator `= `.
pub open spec fn spec_has_value(record: Seq<u8>) -> bool {
    record[KEYWORD_LEN as int] == EQUALS && record[KEYWORD_LEN + 1] == SPACE
}

/// The integer value of `record`: the value indicator must be there, and
/// the value field must spell an integer of at most 64 bits.
pub open spec fn spec_card_integer(record: Seq<u8>) -> Option<i64> {
    if spec_has_value(record) {
        spec_parse_integer(record.subrange(VALUE_START as int, RECORD_LEN as int))
    } else {
        None
    }
}

/// The count or size that `record` gives: its integer value where that is
/// not negative and fits a `usize`.
pub open spec fn spec_card_size(record: Seq<u8>) -> Option<usize> {
    match spec_card_integer(record) {
        Some(value) if 0 <= value <= usize::MAX => Some(value as usize),
        _ => None,
    }
}

/// What the first 80 bytes of `record` say, with the keyword that says it.
///
/// - A record of fewer than 80 bytes is incomplete.
/// - `SIMPLE` and `END` stand for themselves whatever follows the keyword.
/// - `BITPIX` needs an integer value, which must be one of the six codes.
/// - `NAXIS` and `NAXISn` need an integer value that is not negative.
/// - Every other keyword gives a card that is not looked into.
///
/// `position` is where the record starts in the buffer; the errors carry it.
pub open spec fn spec_card(record: Seq<u8>, position: usize) -> Result<
    (Seq<u8>, FITSHeaderKeyword),
    Error,
> {
    let name = spec_keyword_name(record);
    if record.len() < RECORD_LEN {
        Err(Error::Incomplete { needed: (RECORD_LEN - record.len()) as usize })
    } else if name == SIMPLE@ {
        Ok((name, FITSHeaderKeyword::Simple))
    } else if name == END@ {
        Ok((name, FITSHeaderKeyword::End))
    } else if name == BITPIX@ {
        match spec_card_integer(record) {
            None => Err(Error::MalformedCard { position }),
            Some(code) => match BitpixValue::spec_from_code(code as int) {
                None => Err(Error::UnsupportedBitpix { position }),
                Some(bitpix) => Ok((name, FITSHeaderKeyword::Bitpix(bitpix))),
            },
        }
    } else if name == NAXIS@ {
        match spec_card_size(record) {
            None => Err(Error::MalformedCard { position }),
            Some(count) => Ok((name, FITSHeaderKeyword::Naxis(count))),
        }
    } else if spec_axis_index(name) is Some {
        match spec_card_size(record) {
            None => Err(Error::MalformedCard { position }),
            Some(size) => Ok(
                (name, FITSHeaderKeyword::NaxisSize { idx: spec_axis_index(name)->0, size }),
            ),
        }
    } else {
        Ok((name, FITSHeaderKeyword::Other))
    }
}

/// The outcome of reading a card with the keyword replaced by its bytes.
pub open spec fn card_result_view(res: Result<(&[u8], FITSHeaderKeyword), Error>) -> Result<
    (Seq<u8>, FITSHeaderKeyword),
    Error,
> {
    match res {
        Ok((name, keyword)) => Ok((name@, keyword)),
        Err(e) => Err(e),
    }
}

/// Whether `name` and `expected` hold the same bytes.
pub fn same_bytes(name: &[u8], expected: &[u8]) -> (same: bool)
    ensures
        same == (name@ == expected@),
{
    if name.len() != expected.len() {
        return false;
    }
    let mut i: usize = 0;
    while i < name.len()
        invariant
            i <= name@.len(),
            name@.len() == expected@.len(),
            name@.subrange(0, i as int) == expected@.subrange(0, i as int),
        decreases name@.len() - i,
    {
        if name[i] != expected[i] {
            return false;
        }
        proof {
            assert(name@.subrange(0, i + 1) =~= name@.subrange(0, i as int).push(name@[i as int]));
            assert(expected@.subrange(0, i + 1) =~= expected@.subrange(0, i as int).push(
                expected@[i as int],
            ));
        }
        i = i + 1;
    }
    proof {
        assert(name@ =~= name@.subrange(0, i as int));
        assert(expected@ =~= expected@.subrange(0, i as int));
    }
    true
}

/// The keyword of `record`: its first eight bytes without the spaces that
/// pad them, as a view of the record.
pub fn keyword_name<'a>(record: &'a [u8]) -> (name: &'a [u8])
    requires
        record@.len() >= KEYWORD_LEN,
    ensures
        name@ == spec_keyword_name(record@),
        name@.len() <= KEYWORD_LEN,
{
    let mut end: usize = KEYWORD_LEN;
    while end > 0 && record[end - 1] == SPACE
        invariant
            end <= KEYWORD_LEN <= record@.len(),
            spec_keyword_name(record@) == spec_trim(record@.subrange(0, end as int)),
        decreases end,
    {
        proof {
            assert(record@.subrange(0, end as int).drop_last() =~= record@.subrange(0, end - 1));
        }
        end = end - 1;
    }
    slice_subrange(record, 0, end)
}

/// The number of the axis that the keyword `name` speaks of, if `name` is
/// `NAXIS` followed by one to three digits.
pub fn axis_index(name: &[u8]) -> (idx: Option<usize>)
    ensures
        idx == spec_axis_index(name@),
        idx matches Some(i) ==> i <= 999,
{
    if name.len() <= 5 || name.len() > KEYWORD_LEN {
        return None;
    }
    if !same_bytes(slice_subrange(name, 0, 5), &NAXIS) {
        return None;
    }
    let (last, number) = read_digits(name, 5);
    if last != name.len() {
        return None;
    }
    proof {
        lemma_decimal_bound(name@.subrange(5, name@.len() as int));
    }
    match number {
        Some(number) => Some(number as usize),
        None => None,
    }
}

/// A run of at most three digits spells a number below a thousand.
pub proof fn lemma_decimal_bound(digits: Seq<u8>)
    requires
        digits.len() <= 3,
        forall|i: int| 0 <= i < digits.len() ==> is_digit(#[trigger] digits[i]),
    ensures
        decimal(digits) <= 999,
{
    reveal_with_fuel(decimal, 4);
}

/// The integer value of `record`, if it has the value indicator and its
/// value field spells an integer of at most 64 bits.
pub fn card_integer(record: &[u8]) -> (value: Option<i64>)
    requires
        record@.len() >= RECORD_LEN,
    ensures
        value == spec_card_integer(record@),
{
    if record[KEYWORD_LEN] == EQUALS && record[KEYWORD_LEN + 1] == SPACE {
        parse_integer(slice_subrange(record, VALUE_START, RECORD_LEN))
    } else {
        None
    }
}

/// The count or size that `record` gives: its integer value where that is
/// not negative and fits a `usize`.
pub fn card_size(record: &[u8]) -> (size: Option<usize>)
    requires
        record@.len() >= RECORD_LEN,
    ensures
        size == spec_card_size(record@),
{
    match card_integer(record) {
        Some(value) => {
            if 0 <= value && value as u64 <= usize::MAX as u64 {
                Some(value as usize)
            } else {
                None
            }
        },
        None => None,
    }
}

/// Reads one card from the first 80 bytes of `record`. `position` is where
/// the record starts in the buffer; it is not used to read, only handed on
/// in the errors.
pub fn parse_card<'a>(record: &'a [u8], position: usize) -> (res: Result<
    (&'a [u8], FITSHeaderKeyword),
    Error,
>)
    ensures
        card_result_view(res) == spec_card(record@, position),
{
    if record.len() < RECORD_LEN {
        return Err(Error::Incomplete { needed: RECORD_LEN - record.len() });
    }
    let name = keyword_name(record);
    if same_bytes(name, &SIMPLE) {
        Ok((name, FITSHeaderKeyword::Simple))
    } else if same_bytes(name, &END) {
        Ok((name, FITSHeaderKeyword::End))
    } else if same_bytes(name, &BITPIX) {
        match card_integer(record) {
            None => Err(Error::MalformedCard { position }),
            Some(code) => match BitpixValue::from_code(code) {
                None => Err(Error::UnsupportedBitpix { position }),
                Some(bitpix) => Ok((name, FITSHeaderKeyword::Bitpix(bitpix))),
            },
        }
    } else if same_bytes(name, &NAXIS) {
        match card_size(record) {
            None => Err(Error::MalformedCard { position }),
            Some(count) => Ok((name, FITSHeaderKeyword::Naxis(count))),
        }
    } else {
        match axis_index(name) {
            Some(idx) => match card_size(record) {
                None => Err(Error::MalformedCard { position }),
                Some(size) => Ok((name, FITSHeaderKeyword::NaxisSize { idx, size })),
            },
            None => Ok((name, FITSHeaderKeyword::Other)),
        }
    }
}

} // verus!
