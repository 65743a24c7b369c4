//! What holds of every decoding.
use crate::big_endian::{
    be_i16_seq, be_i32_seq, be_i64_seq, be_u32_seq, be_u64_seq, be_unsigned, chunk,
    lemma_be_unsigned_bound, signed_16, signed_32, signed_64,
};
use crate::card::{spec_card, BitpixValue, FITSHeaderKeyword, RECORD_LEN};
use crate::data_unit::{spec_data_unit, spec_decode, DataView};
use crate::error::{Error, HeaderFault};
use crate::primary_header::{
    keywords_of, spec_header, spec_header_len, spec_padding, spec_scan, HeaderView, BLOCK_LEN,
};
use crate::shape::{lemma_num_items_push, spec_num_items, spec_resolve};
use crate::validator::{lemma_next_wf, spec_run, Stage, ValidatorState};
use crate::{fits_result_view, spec_fits, Fits};
use vstd::prelude::*;

verus! {

/// A scan that finds `END` ends at the end of a record, inside the buffer
/// and at least one record after the place where it started.
pub proof fn lemma_scan_bounds(
    buf: Seq<u8>,
    position: int,
    state: ValidatorState,
    cards: Seq<(Seq<u8>, FITSHeaderKeyword)>,
)
    requires
        0 <= position,
    ensures
        spec_scan(buf, position, state, cards) matches Ok((end, after, _)) ==> {
            &&& position + RECORD_LEN <= end <= buf.len()
            &&& (end - position) % (RECORD_LEN as int) == 0
            &&& after.stage == Stage::Done
        },
    decreases buf.len() - position,
{
    if buf.len() - position >= RECORD_LEN {
        let record = buf.subrange(position, position + RECORD_LEN);
        if let Ok(card) = spec_card(record, position as usize) {
            if let Ok(after) = state.next(card.1) {
                if after.stage != Stage::Done {
                    lemma_scan_bounds(buf, position + RECORD_LEN, after, cards.push(card));
                }
            }
        }
    }
}

/// The cards that a scan hands back make a valid header, with the element
/// type and the axes of the state in which the scan ends.
pub proof fn lemma_scan_valid(
    buf: Seq<u8>,
    position: int,
    state: ValidatorState,
    cards: Seq<(Seq<u8>, FITSHeaderKeyword)>,
)
    requires
        0 <= position,
        state.wf(),
        state.stage != Stage::Done,
        spec_run(ValidatorState::initial(), keywords_of(cards)) == Ok::<
            ValidatorState,
            HeaderFault,
        >(state),
    ensures
        spec_scan(buf, position, state, cards) matches Ok((_, after, all)) ==> (HeaderView {
            cards: all,
            bitpix: after.bitpix->0,
            axes: after.axes(),
        }).wf(),
    decreases buf.len() - position,
{
    if buf.len() - position >= RECORD_LEN {
        let record = buf.subrange(position, position + RECORD_LEN);
        if let Ok(card) = spec_card(record, position as usize) {
            if let Ok(after) = state.next(card.1) {
                lemma_next_wf(state, card.1);
                if after.stage != Stage::Done {
                    assert(keywords_of(cards.push(card)).drop_last() =~= keywords_of(cards));
                    lemma_scan_valid(buf, position + RECORD_LEN, after, cards.push(card));
                } else {
                    assert(card.1 == FITSHeaderKeyword::End);
                }
            }
        }
    }
}

/// The `index`-th record of `buf`.
pub open spec fn record_at(buf: Seq<u8>, index: int) -> Seq<u8> {
    buf.subrange(index * RECORD_LEN, index * RECORD_LEN + RECORD_LEN)
}

/// The cards that a scan hands back are the cards of the records that it
/// went over, one for each record and in the order of the records, and the
/// record at which it stops holds `END`.
pub proof fn lemma_scan_cards(
    buf: Seq<u8>,
    position: int,
    state: ValidatorState,
    cards: Seq<(Seq<u8>, FITSHeaderKeyword)>,
)
    requires
        state.stage != Stage::Done,
        position == cards.len() * RECORD_LEN,
        forall|i: int|
            0 <= i < cards.len() ==> spec_card(
                #[trigger] record_at(buf, i),
                (i * RECORD_LEN) as usize,
            ) == Ok::<(Seq<u8>, FITSHeaderKeyword), Error>(cards[i]),
    ensures
        spec_scan(buf, position, state, cards) matches Ok((end, _, all)) ==> {
            &&& end == (all.len() + 1) * RECORD_LEN
            &&& end <= buf.len()
            &&& forall|i: int|
                0 <= i < all.len() ==> spec_card(
                    #[trigger] record_at(buf, i),
                    (i * RECORD_LEN) as usize,
                ) == Ok::<(Seq<u8>, FITSHeaderKeyword), Error>(all[i])
            &&& spec_card(record_at(buf, all.len() as int), (all.len() * RECORD_LEN) as usize)
                matches Ok(last)
            &&& last.1 == FITSHeaderKeyword::End
        },
    decreases buf.len() - position,
{
    if buf.len() - position >= RECORD_LEN {
        assert(record_at(buf, cards.len() as int) == buf.subrange(
            position,
            position + RECORD_LEN,
        ));
        if let Ok(card) = spec_card(record_at(buf, cards.len() as int), position as usize) {
            if let Ok(after) = state.next(card.1) {
                if after.stage != Stage::Done {
                    lemma_scan_cards(buf, position + RECORD_LEN, after, cards.push(card));
                }
            }
        }
    }
}

/// The cards of a header are the cards of the records of the buffer before
/// the first `END` record, one for each record and in the order of the
/// records; the header block reaches from the start of the buffer over the
/// `END` record to the next multiple of 2880 bytes.
pub proof fn cards_are_the_records_before_end(buf: Seq<u8>)
    ensures
        spec_header(buf) matches Ok((_, header)) ==> {
            &&& (header.cards.len() + 1) * RECORD_LEN <= buf.len()
            &&& forall|i: int|
                0 <= i < header.cards.len() ==> spec_card(
                    #[trigger] record_at(buf, i),
                    (i * RECORD_LEN) as usize,
                ) == Ok::<(Seq<u8>, FITSHeaderKeyword), Error>(header.cards[i])
            &&& spec_card(
                record_at(buf, header.cards.len() as int),
                (header.cards.len() * RECORD_LEN) as usize,
            ) matches Ok(last)
            &&& last.1 == FITSHeaderKeyword::End
            &&& spec_header_len(buf) == Ok::<int, Error>(
                (header.cards.len() + 1) * RECORD_LEN + spec_padding(
                    (header.cards.len() + 1) * RECORD_LEN,
                ),
            )
        },
{
    lemma_scan_cards(buf, 0, ValidatorState::initial(), Seq::empty());
}

/// The header block is made of whole blocks: where `buf` starts with a
/// header, the length of the header block is a multiple of 2880 bytes, the
/// block lies inside `buf`, and what is handed on as the rest of `buf` is
/// what follows the block.
pub proof fn header_block_is_whole_blocks(buf: Seq<u8>)
    ensures
        spec_header(buf) matches Ok((rest, _)) ==> {
            &&& spec_header_len(buf) matches Ok(block_len)
            &&& block_len % (BLOCK_LEN as int) == 0
            &&& BLOCK_LEN <= block_len <= buf.len()
            &&& rest == buf.skip(block_len)
            &&& rest.len() == buf.len() - block_len
        },
{
    lemma_scan_bounds(buf, 0, ValidatorState::initial(), Seq::empty());
}

/// Every header that is read from a buffer is valid: its cards hold
/// `SIMPLE`, `BITPIX`, `NAXIS` and the axis cards in the order that the
/// validator asks for, and its element type and axes are theirs.
pub proof fn header_is_valid(buf: Seq<u8>)
    ensures
        spec_header(buf) matches Ok((_, header)) ==> header.wf(),
{
    assert(keywords_of(Seq::<(Seq<u8>, FITSHeaderKeyword)>::empty()) =~= Seq::empty());
    lemma_scan_valid(buf, 0, ValidatorState::initial(), Seq::empty());
}

/// A valid header without axes describes a data unit of exactly one
/// element.
pub proof fn no_axis_gives_one_element(header: HeaderView)
    requires
        header.wf(),
        header.axes.len() == 0,
    ensures
        spec_resolve(header.axes) == Ok::<usize, Error>(1),
{
}

/// The number of elements of axes written one after the other is the
/// product of the numbers of elements of the two parts. With
/// `single_axis_gives_its_size` and `no_axis_gives_one_element` this makes
/// the number of elements the product of the sizes of all axes.
pub proof fn num_items_of_joined_axes(axes: Seq<usize>, more: Seq<usize>)
    ensures
        spec_num_items(axes + more) == spec_num_items(axes) * spec_num_items(more),
    decreases more.len(),
{
    let a = spec_num_items(axes);
    if more.len() == 0 {
        assert(axes + more =~= axes);
        assert(a * 1 == a) by (nonlinear_arith);
    } else {
        num_items_of_joined_axes(axes, more.drop_last());
        assert((axes + more).drop_last() =~= axes + more.drop_last());
        assert((axes + more).last() == more.last());
        let b = spec_num_items(more.drop_last());
        let c = more.last() as nat;
        assert(spec_num_items(axes + more) == (a * b) * c);
        assert(spec_num_items(more) == b * c);
        assert((a * b) * c == a * (b * c)) by (nonlinear_arith);
    }
}

/// A single axis holds as many elements as its size says.
pub proof fn single_axis_gives_its_size(size: usize)
    ensures
        spec_num_items(seq![size]) == size,
{
    lemma_num_items_push(Seq::empty(), size);
    assert(seq![size] =~= Seq::<usize>::empty().push(size));
    assert(spec_num_items(Seq::<usize>::empty()) == 1);
    assert(1 * (size as nat) == size) by (nonlinear_arith);
}

/// The number of elements that a valid header resolves to is the product of
/// the sizes of its axes, and an overflow is reported exactly where that
/// product does not fit a `usize`.
pub proof fn element_count_is_the_product(header: HeaderView)
    requires
        header.wf(),
    ensures
        match spec_resolve(header.axes) {
            Ok(count) => count == spec_num_items(header.axes),
            Err(error) => error == Error::Overflow && spec_num_items(header.axes) > usize::MAX,
        },
{
}

/// Decoding `num_items` elements of width `W` takes exactly the first
/// `num_items * W` bytes: it succeeds exactly where that length fits a
/// `usize` and the buffer holds that many bytes, the unit has `num_items`
/// elements of the type asked for, and another buffer that starts with the
/// same `num_items * W` bytes decodes to the same unit.
pub proof fn data_unit_takes_exactly_its_bytes(
    buf: Seq<u8>,
    other: Seq<u8>,
    bitpix: BitpixValue,
    num_items: nat,
)
    ensures
        spec_data_unit(buf, bitpix, num_items) is Ok <==> num_items * bitpix.spec_width()
            <= usize::MAX && num_items * bitpix.spec_width() <= buf.len(),
        spec_data_unit(buf, bitpix, num_items) matches Ok(data) ==> {
            &&& data == spec_decode(bitpix, buf.take((num_items * bitpix.spec_width()) as int))
            &&& data.len() == num_items
            &&& data.bitpix() == bitpix
            &&& other.len() >= num_items * bitpix.spec_width() && other.take(
                (num_items * bitpix.spec_width()) as int,
            ) == buf.take((num_items * bitpix.spec_width()) as int) ==> spec_data_unit(
                other,
                bitpix,
                num_items,
            ) == Ok::<DataView, Error>(data)
        },
{
}

/// Each element of a decoded unit is the big-endian reading of its own
/// group of bytes, in the order of the groups, and no bit is lost: the
/// integers are the two's complement readings, the floating-point elements
/// the bit patterns.
pub proof fn elements_are_big_endian(bytes: Seq<u8>, index: int)
    ensures
        be_i16_seq(bytes).len() == bytes.len() / 2,
        be_i32_seq(bytes).len() == bytes.len() / 4,
        be_i64_seq(bytes).len() == bytes.len() / 8,
        be_u32_seq(bytes).len() == bytes.len() / 4,
        be_u64_seq(bytes).len() == bytes.len() / 8,
        0 <= index < bytes.len() / 2 ==> be_i16_seq(bytes)[index] as int == signed_16(
            be_unsigned(chunk(bytes, 2, index)),
        ),
        0 <= index < bytes.len() / 4 ==> be_i32_seq(bytes)[index] as int == signed_32(
            be_unsigned(chunk(bytes, 4, index)),
        ),
        0 <= index < bytes.len() / 8 ==> be_i64_seq(bytes)[index] as int == signed_64(
            be_unsigned(chunk(bytes, 8, index)),
        ),
        0 <= index < bytes.len() / 4 ==> be_u32_seq(bytes)[index] as int == be_unsigned(
            chunk(bytes, 4, index),
        ),
        0 <= index < bytes.len() / 8 ==> be_u64_seq(bytes)[index] as int == be_unsigned(
            chunk(bytes, 8, index),
        ),
{
    if 0 <= index < bytes.len() / 2 {
        lemma_be_unsigned_bound(chunk(bytes, 2, index));
    }
    if 0 <= index < bytes.len() / 4 {
        lemma_be_unsigned_bound(chunk(bytes, 4, index));
    }
    if 0 <= index < bytes.len() / 8 {
        lemma_be_unsigned_bound(chunk(bytes, 8, index));
    }
}

/// The numbers that two, four and eight bytes spell, written out.
pub proof fn be_unsigned_written_out(bytes: Seq<u8>)
    ensures
        bytes.len() == 1 ==> be_unsigned(bytes) == bytes[0],
        bytes.len() == 2 ==> be_unsigned(bytes) == bytes[0] * 0x100 + bytes[1],
        bytes.len() == 4 ==> be_unsigned(bytes) == bytes[0] * 0x100_0000 + bytes[1] * 0x1_0000
            + bytes[2] * 0x100 + bytes[3],
        bytes.len() == 8 ==> be_unsigned(bytes) == bytes[0] * 0x100_0000_0000_0000 + bytes[1]
            * 0x1_0000_0000_0000 + bytes[2] * 0x100_0000_0000 + bytes[3] * 0x1_0000_0000 + bytes[4]
            * 0x100_0000 + bytes[5] * 0x1_0000 + bytes[6] * 0x100 + bytes[7],
{
    reveal_with_fuel(be_unsigned, 9);
    let s7 = bytes.drop_last();
    let s6 = s7.drop_last();
    let s5 = s6.drop_last();
    let s4 = s5.drop_last();
    let s3 = s4.drop_last();
    let s2 = s3.drop_last();
    let s1 = s2.drop_last();
    if bytes.len() == 8 {
        assert(s7.last() == bytes[6] && s6.last() == bytes[5] && s5.last() == bytes[4] && s4.last()
            == bytes[3] && s3.last() == bytes[2] && s2.last() == bytes[1] && s1.last() == bytes[0]);
    }
}

/// The data unit of a decoded file is the decoding of the bytes that follow
/// the header block: as many elements as the product of the axes, of the
/// width of the element type, starting at the end of the block. A unit of
/// unsigned bytes is that part of the buffer itself, byte for byte.
pub proof fn data_unit_is_what_follows_the_header(buf: Seq<u8>)
    ensures
        spec_fits(buf) matches Ok(fits) ==> {
            &&& fits.header.wf()
            &&& spec_header_len(buf) matches Ok(start)
            &&& start % (BLOCK_LEN as int) == 0
            &&& fits.data.bitpix() == fits.header.bitpix
            &&& fits.data.len() == spec_num_items(fits.header.axes)
            &&& start + fits.data.len() * fits.header.bitpix.spec_width() <= buf.len()
            &&& fits.data == spec_decode(
                fits.header.bitpix,
                buf.subrange(
                    start,
                    start + fits.data.len() * fits.header.bitpix.spec_width(),
                ),
            )
            &&& fits.header.bitpix == BitpixValue::U8 ==> fits.data == DataView::U8(
                buf.subrange(start, start + spec_num_items(fits.header.axes)),
            )
        },
{
    header_block_is_whole_blocks(buf);
    header_is_valid(buf);
    if let Ok((rest, header)) = spec_header(buf) {
        if let Ok(count) = spec_resolve(header.axes) {
            let start = spec_header_len(buf)->Ok_0;
            let num_bytes = count * header.bitpix.spec_width();
            if spec_data_unit(rest, header.bitpix, count as nat) is Ok {
                assert(rest.take(num_bytes as int) =~= buf.subrange(start, start + num_bytes));
            }
        }
    }
}

/// Decoding is a function of the bytes of the buffer: two decodings of one
/// buffer give the same cards, the same element type and axes, and the same
/// elements, or the same error.
pub proof fn decoding_twice_gives_the_same(
    buf: Seq<u8>,
    first: Result<Fits, Error>,
    second: Result<Fits, Error>,
)
    requires
        fits_result_view(first) == spec_fits(buf),
        fits_result_view(second) == spec_fits(buf),
    ensures
        fits_result_view(first) == fits_result_view(second),
        first matches Ok(fits) ==> second is Ok && fits@.header.cards
            == second->Ok_0@.header.cards && fits@.data == second->Ok_0@.data,
        first matches Err(error) ==> second == Err::<Fits, Error>(error),
{
}

} // verus!
