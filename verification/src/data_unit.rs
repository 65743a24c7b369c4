//! The data unit: the array of numbers that follows the header block.
use crate::big_endian::{be_i16_seq, be_i32_seq, be_i64_seq, be_u32_seq, be_u64_seq};
use crate::card::BitpixValue;
use crate::error::Error;
use byteorder::{BigEndian, ByteOrder};
use vstd::prelude::*;

verus! {

/// Splits `buf` after its first `count` bytes with nom's streaming `take`.
///
/// Trusted: `nom::bytes::streaming::take(count)` on a byte slice succeeds
/// exactly when the slice holds at least `count` bytes, and then hands back
/// the bytes after the first `count` and the first `count` bytes, in that
/// order; on a shorter slice it reports that it needs more input, which
/// comes out here as `None`.
#[verifier::external_body]
fn take<'a>(buf: &'a [u8], count: usize) -> (split: Option<(&'a [u8], &'a [u8])>)
    ensures
        split is Some <==> count <= buf@.len(),
        split matches Some((rest, taken)) ==> taken@ == buf@.take(count as int) && rest@
            == buf@.skip(count as int),
{
    let parsed: nom::IResult<&[u8], &[u8]> = nom::bytes::streaming::take(count)(buf);
    match parsed {
        Ok(split) => Some(split),
        Err(_) => None,
    }
}

/// Fills `dst` from `src` with byteorder's `BigEndian::read_i16_into`.
///
/// Trusted: the call stores in element `i` of `dst` the two's complement
/// number of 16 bits whose big-endian bytes are bytes `2 * i` and `2 * i + 1`
/// of `src`, and keeps the length of `dst`. It panics unless `src` is twice as
/// long as `dst`.
#[verifier::external_body]
fn read_i16_into(src: &[u8], dst: &mut Vec<i16>)
    requires
        src@.len() == 2 * old(dst)@.len(),
    ensures
        final(dst)@ == be_i16_seq(src@),
{
    BigEndian::read_i16_into(src, dst);
}

/// Fills `dst` from `src` with byteorder's `BigEndian::read_i32_into`.
///
/// Trusted: the call stores in element `i` of `dst` the two's complement
/// number of 32 bits whose big-endian bytes are the four bytes of `src` from
/// `4 * i` on, and keeps the length of `dst`. It panics unless `src` is four
/// times as long as `dst`.
#[verifier::external_body]
fn read_i32_into(src: &[u8], dst: &mut Vec<i32>)
    requires
        src@.len() == 4 * old(dst)@.len(),
    ensures
        final(dst)@ == be_i32_seq(src@),
{
    BigEndian::read_i32_into(src, dst);
}

/// Fills `dst` from `src` with byteorder's `BigEndian::read_i64_into`.
///
/// Trusted: the call stores in element `i` of `dst` the two's complement
/// number of 64 bits whose big-endian bytes are the eight bytes of `src` from
/// `8 * i` on, and keeps the length of `dst`. It panics unless `src` is eight
/// times as long as `dst`.
#[verifier::external_body]
fn read_i64_into(src: &[u8], dst: &mut Vec<i64>)
    requires
        src@.len() == 8 * old(dst)@.len(),
    ensures
        final(dst)@ == be_i64_seq(src@),
{
    BigEndian::read_i64_into(src, dst);
}

/// Fills `dst` from `src` with byteorder's `BigEndian::read_u32_into`.
///
/// Trusted: the call stores in element `i` of `dst` the unsigned number
/// whose big-endian bytes are the four bytes of `src` from `4 * i` on, and
/// keeps the length of `dst`. It panics unless `src` is four times as long as
/// `dst`.
#[verifier::external_body]
fn read_u32_into(src: &[u8], dst: &mut Vec<u32>)
    requires
        src@.len() == 4 * old(dst)@.len(),
    ensures
        final(dst)@ == be_u32_seq(src@),
{
    BigEndian::read_u32_into(src, dst);
}

/// Fills `dst` from `src` with byteorder's `BigEndian::read_u64_into`.
///
/// Trusted: the call stores in element `i` of `dst` the unsigned number
/// whose big-endian bytes are the eight bytes of `src` from `8 * i` on, and
/// keeps the length of `dst`. It panics unless `src` is eight times as long
/// as `dst`.
#[verifier::external_body]
fn read_u64_into(src: &[u8], dst: &mut Vec<u64>)
    requires
        src@.len() == 8 * old(dst)@.len(),
    ensures
        final(dst)@ == be_u64_seq(src@),
{
    BigEndian::read_u64_into(src, dst);
}

/// A data unit of unsigned bytes: a view of the input buffer, not a copy.
#[derive(Debug, PartialEq)]
pub struct DataUnitU8<'a>(pub &'a [u8]);

/// A data unit of signed integers of 16 bits.
#[derive(Debug, PartialEq)]
pub struct DataUnitI16(pub Vec<i16>);

/// A data unit of signed integers of 32 bits.
#[derive(Debug, PartialEq)]
pub struct DataUnitI32(pub Vec<i32>);

/// A data unit of signed integers of 64 bits.
#[derive(Debug, PartialEq)]
pub struct DataUnitI64(pub Vec<i64>);

/// A data unit of IEEE 754 numbers of 32 bits. Each element is the bit
/// pattern of one number, sign bit first, exactly as the file stores it, so
/// that not-a-number patterns pass through untouched.
#[derive(Debug, PartialEq)]
pub struct DataUnitF32(pub Vec<u32>);

/// A data unit of IEEE 754 numbers of 64 bits. Each element is the bit
/// pattern of one number, sign bit first, exactly as the file stores it, so
/// that not-a-number patterns pass through untouched.
#[derive(Debug, PartialEq)]
pub struct DataUnitF64(pub Vec<u64>);

impl<'a> DataUnitU8<'a> {
    /// The unit whose elements are the bytes of `raw_bytes`, unchanged and
    /// not copied.
    pub fn new(raw_bytes: &'a [u8], _num_items: usize) -> (unit: Self)
        ensures
            unit.0@ == raw_bytes@,
    {
        DataUnitU8(raw_bytes)
    }
}

impl DataUnitI16 {
    /// The unit of the `num_items` numbers that `raw_bytes` hold in
    /// big-endian order, two bytes each.
    pub fn new(raw_bytes: &[u8], num_items: usize) -> (unit: Self)
        requires
            raw_bytes@.len() == 2 * num_items,
        ensures
            unit.0@ == be_i16_seq(raw_bytes@),
            unit.0@.len() == num_items,
    {
        let mut dst: Vec<i16> = vec![0i16; num_items];
        read_i16_into(raw_bytes, &mut dst);
        DataUnitI16(dst)
    }
}

impl DataUnitI32 {
    /// The unit of the `num_items` numbers that `raw_bytes` hold in
    /// big-endian order, four bytes each.
    pub fn new(raw_bytes: &[u8], num_items: usize) -> (unit: Self)
        requires
            raw_bytes@.len() == 4 * num_items,
        ensures
            unit.0@ == be_i32_seq(raw_bytes@),
            unit.0@.len() == num_items,
    {
        let mut dst: Vec<i32> = vec![0i32; num_items];
        read_i32_into(raw_bytes, &mut dst);
        DataUnitI32(dst)
    }
}

impl DataUnitI64 {
    /// The unit of the `num_items` numbers that `raw_bytes` hold in
    /// big-endian order, eight bytes each.
    pub fn new(raw_bytes: &[u8], num_items: usize) -> (unit: Self)
        requires
            raw_bytes@.len() == 8 * num_items,
        ensures
            unit.0@ == be_i64_seq(raw_bytes@),
            unit.0@.len() == num_items,
    {
        let mut dst: Vec<i64> = vec![0i64; num_items];
        read_i64_into(raw_bytes, &mut dst);
        DataUnitI64(dst)
    }
}

impl DataUnitF32 {
    /// The unit of the `num_items` bit patterns that `raw_bytes` hold in
    /// big-endian order, four bytes each.
    pub fn new(raw_bytes: &[u8], num_items: usize) -> (unit: Self)
        requires
            raw_bytes@.len() == 4 * num_items,
        ensures
            unit.0@ == be_u32_seq(raw_bytes@),
            unit.0@.len() == num_items,
    {
        let mut dst: Vec<u32> = vec![0u32; num_items];
        read_u32_into(raw_bytes, &mut dst);
        DataUnitF32(dst)
    }
}

impl DataUnitF64 {
    /// The unit of the `num_items` bit patterns that `raw_bytes` hold in
    /// big-endian order, eight bytes each.
    pub fn new(raw_bytes: &[u8], num_items: usize) -> (unit: Self)
        requires
            raw_bytes@.len() == 8 * num_items,
        ensures
            unit.0@ == be_u64_seq(raw_bytes@),
            unit.0@.len() == num_items,
    {
        let mut dst: Vec<u64> = vec![0u64; num_items];
        read_u64_into(raw_bytes, &mut dst);
        DataUnitF64(dst)
    }
}

/// The data unit of a file: one of six arrays, by the element type that the
/// header declares.
#[derive(Debug, PartialEq)]
pub enum DataType<'a> {
    U8(DataUnitU8<'a>),
    I16(DataUnitI16),
    I32(DataUnitI32),
    I64(DataUnitI64),
    F32(DataUnitF32),
    F64(DataUnitF64),
}

/// What a data unit holds: its element type and its elements in order. The
/// two floating-point kinds hold bit patterns.
pub enum DataView {
    U8(Seq<u8>),
    I16(Seq<i16>),
    I32(Seq<i32>),
    I64(Seq<i64>),
    F32(Seq<u32>),
    F64(Seq<u64>),
}

impl DataView {
    /// The number of elements.
    pub open spec fn len(self) -> nat {
        match self {
            DataView::U8(values) => values.len(),
            DataView::I16(values) => values.len(),
            DataView::I32(values) => values.len(),
            DataView::I64(values) => values.len(),
            DataView::F32(values) => values.len(),
            DataView::F64(values) => values.len(),
        }
    }

    /// The element type.
    pub open spec fn bitpix(self) -> BitpixValue {
        match self {
            DataView::U8(_) => BitpixValue::U8,
            DataView::I16(_) => BitpixValue::I16,
            DataView::I32(_) => BitpixValue::I32,
            DataView::I64(_) => BitpixValue::I64,
            DataView::F32(_) => BitpixValue::F32,
            DataView::F64(_) => BitpixValue::F64,
        }
    }
}

impl<'a> View for DataType<'a> {
    type V = DataView;

    open spec fn view(&self) -> DataView {
        match self {
            DataType::U8(unit) => DataView::U8(unit.0@),
            DataType::I16(unit) => DataView::I16(unit.0@),
            DataType::I32(unit) => DataView::I32(unit.0@),
            DataType::I64(unit) => DataView::I64(unit.0@),
            DataType::F32(unit) => DataView::F32(unit.0@),
            DataType::F64(unit) => DataView::F64(unit.0@),
        }
    }
}

/// The data unit that `bytes` spell when their elements are of the type
/// `bitpix`: the bytes themselves for unsigned bytes, and for every other
/// type the big-endian reading of each group of `bitpix.spec_width()` bytes.
pub open spec fn spec_decode(bitpix: BitpixValue, bytes: Seq<u8>) -> DataView {
    match bitpix {
        BitpixValue::U8 => DataView::U8(bytes),
        BitpixValue::I16 => DataView::I16(be_i16_seq(bytes)),
        BitpixValue::I32 => DataView::I32(be_i32_seq(bytes)),
        BitpixValue::I64 => DataView::I64(be_i64_seq(bytes)),
        BitpixValue::F32 => DataView::F32(be_u32_seq(bytes)),
        BitpixValue::F64 => DataView::F64(be_u64_seq(bytes)),
    }
}

/// What reading `num_items` elements of type `bitpix` from the start of
/// `buf` gives: an overflow where the length in bytes does not fit a `usize`;
/// else a request for the missing bytes where `buf` is shorter than that
/// length; else the decoding of exactly that many bytes.
pub open spec fn spec_data_unit(buf: Seq<u8>, bitpix: BitpixValue, num_items: nat) -> Result<
    DataView,
    Error,
> {
    let num_bytes = num_items * bitpix.spec_width();
    if num_bytes > usize::MAX {
        Err(Error::Overflow)
    } else if buf.len() < num_bytes {
        Err(Error::Incomplete { needed: (num_bytes - buf.len()) as usize })
    } else {
        Ok(spec_decode(bitpix, buf.take(num_bytes as int)))
    }
}

/// The outcome of a decoding with the data unit replaced by what it holds.
pub open spec fn data_result_view(res: Result<DataType, Error>) -> Result<DataView, Error> {
    match res {
        Ok(data) => Ok(data@),
        Err(e) => Err(e),
    }
}

impl<'a> DataType<'a> {
    /// Reads `num_items` elements of type `bitpix` from the start of `buf`.
    /// Bytes of `buf` beyond the data unit are left alone.
    pub fn parse(buf: &'a [u8], bitpix: BitpixValue, num_items: usize) -> (res: Result<
        DataType<'a>,
        Error,
    >)
        ensures
            data_result_view(res) == spec_data_unit(buf@, bitpix, num_items as nat),
    {
        let num_bytes = match num_items.checked_mul(bitpix.width()) {
            Some(num_bytes) => num_bytes,
            None => {
                return Err(Error::Overflow);
            },
        };
        let raw_bytes = match take(buf, num_bytes) {
            Some((_, taken)) => taken,
            None => {
                return Err(Error::Incomplete { needed: num_bytes - buf.len() });
            },
        };
        let data = match bitpix {
            BitpixValue::U8 => DataType::U8(DataUnitU8::new(raw_bytes, num_items)),
            BitpixValue::I16 => DataType::I16(DataUnitI16::new(raw_bytes, num_items)),
            BitpixValue::I32 => DataType::I32(DataUnitI32::new(raw_bytes, num_items)),
            BitpixValue::I64 => DataType::I64(DataUnitI64::new(raw_bytes, num_items)),
            BitpixValue::F32 => DataType::F32(DataUnitF32::new(raw_bytes, num_items)),
            BitpixValue::F64 => DataType::F64(DataUnitF64::new(raw_bytes, num_items)),
        };
        Ok(data)
    }
}

} // verus!
