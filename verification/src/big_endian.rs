//! What a run of bytes means as numbers stored most significant byte first.
use vstd::prelude::*;

verus! {

/// The number that `bytes` spell in base 256, most significant byte first.
pub open spec fn be_unsigned(bytes: Seq<u8>) -> nat
    decreases bytes.len(),
{
    if bytes.len() == 0 {
        0
    } else {
        be_unsigned(bytes.drop_last()) * 256 + bytes.last() as nat
    }
}

/// The two's complement reading of a 16 bit pattern.
pub open spec fn signed_16(pattern: nat) -> int {
    if pattern < 0x8000 {
        pattern as int
    } else {
        pattern - 0x1_0000
    }
}

/// The two's complement reading of a 32 bit pattern.
pub open spec fn signed_32(pattern: nat) -> int {
    if pattern < 0x8000_0000 {
        pattern as int
    } else {
        pattern - 0x1_0000_0000
    }
}

/// The two's complement reading of a 64 bit pattern.
pub open spec fn signed_64(pattern: nat) -> int {
    if pattern < 0x8000_0000_0000_0000 {
        pattern as int
    } else {
        pattern - 0x1_0000_0000_0000_0000
    }
}

/// The `index`-th group of `width` bytes of `bytes`.
pub open spec fn chunk(bytes: Seq<u8>, width: int, index: int) -> Seq<u8> {
    bytes.subrange(index * width, index * width + width)
}

/// The signed 16 bit numbers that the successive pairs of `bytes` spell.
pub open spec fn be_i16_seq(bytes: Seq<u8>) -> Seq<i16> {
    Seq::new(
        (bytes.len() / 2) as nat,
        |i: int| signed_16(be_unsigned(chunk(bytes, 2, i))) as i16,
    )
}

/// The signed 32 bit numbers that the successive groups of four of `bytes`
/// spell.
pub open spec fn be_i32_seq(bytes: Seq<u8>) -> Seq<i32> {
    Seq::new(
        (bytes.len() / 4) as nat,
        |i: int| signed_32(be_unsigned(chunk(bytes, 4, i))) as i32,
    )
}

/// The signed 64 bit numbers that the successive groups of eight of `bytes`
/// spell.
pub open spec fn be_i64_seq(bytes: Seq<u8>) -> Seq<i64> {
    Seq::new(
        (bytes.len() / 8) as nat,
        |i: int| signed_64(be_unsigned(chunk(bytes, 8, i))) as i64,
    )
}

/// The unsigned 32 bit numbers that the successive groups of four of `bytes`
/// spell.
pub open spec fn be_u32_seq(bytes: Seq<u8>) -> Seq<u32> {
    Seq::new((bytes.len() / 4) as nat, |i: int| be_unsigned(chunk(bytes, 4, i)) as u32)
}

/// The unsigned 64 bit numbers that the successive groups of eight of
/// `bytes` spell.
pub open spec fn be_u64_seq(bytes: Seq<u8>) -> Seq<u64> {
    Seq::new((bytes.len() / 8) as nat, |i: int| be_unsigned(chunk(bytes, 8, i)) as u64)
}

/// The successor of the largest number that `len` bytes can spell.
pub open spec fn radix_power(len: nat) -> nat
    decreases len,
{
    if len == 0 {
        1
    } else {
        256 * radix_power((len - 1) as nat)
    }
}

/// A run of bytes spells a number below 256 to the power of its length, so
/// the numbers of two, four and eight bytes fit the integer types of 16, 32
/// and 64 bits, and none of the conversions above loses anything.
pub proof fn lemma_be_unsigned_bound(bytes: Seq<u8>)
    ensures
        be_unsigned(bytes) < radix_power(bytes.len()),
        bytes.len() == 2 ==> be_unsigned(bytes) < 0x1_0000,
        bytes.len() == 4 ==> be_unsigned(bytes) < 0x1_0000_0000,
        bytes.len() == 8 ==> be_unsigned(bytes) < 0x1_0000_0000_0000_0000,
    decreases bytes.len(),
{
    reveal_with_fuel(radix_power, 9);
    if bytes.len() > 0 {
        lemma_be_unsigned_bound(bytes.drop_last());
    }
}

} // verus!
