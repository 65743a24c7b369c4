//! The primary header: the cards of a file up to `END`, and what they say
//! of the data unit.
//!
//! The header is a run of 80 byte records that ends with the `END` record.
//! Padding follows up to the next multiple of 2880 bytes, and the data unit
//! starts there.
use crate::card::{parse_card, spec_card, RECORD_LEN};
use crate::error::{Error, HeaderFault};
use crate::validator::{spec_run, HeaderValidator, Stage, ValidatorState};
use vstd::prelude::*;
use vstd::slice::slice_subrange;

pub use crate::card::{BitpixValue, FITSHeaderKeyword};

verus! {

/// The length of a block in bytes. The header block and the data unit each
/// start on a multiple of it.
pub const BLOCK_LEN: usize = 2880;

/// The primary header of a file.
#[derive(Debug, PartialEq)]
pub struct PrimaryHeader<'a> {
    /// The cards before `END` in the order of the file, each with its
    /// keyword as the file spells it.
    pub cards: Vec<(&'a [u8], FITSHeaderKeyword)>,
    bitpix: BitpixValue,
    axes: Vec<usize>,
}

/// What a primary header holds.
pub struct HeaderView {
    /// The cards before `END`, each with the bytes of its keyword.
    pub cards: Seq<(Seq<u8>, FITSHeaderKeyword)>,
    /// The element type of the data unit.
    pub bitpix: BitpixValue,
    /// The sizes of the axes; the size of axis `n` stands at `n - 1`.
    pub axes: Seq<usize>,
}

/// The cards of a header with each keyword replaced by its bytes.
pub open spec fn cards_view(cards: Seq<(&[u8], FITSHeaderKeyword)>) -> Seq<
    (Seq<u8>, FITSHeaderKeyword),
> {
    Seq::new(cards.len(), |i: int| (cards[i].0@, cards[i].1))
}

/// What each card of `cards` says, without the keywords.
pub open spec fn keywords_of(cards: Seq<(Seq<u8>, FITSHeaderKeyword)>) -> Seq<FITSHeaderKeyword> {
    Seq::new(cards.len(), |i: int| cards[i].1)
}

impl HeaderView {
    /// A header is valid when its cards hold the mandatory cards in their
    /// order, so that the validator waits for nothing but `END` after them,
    /// and its element type and axes are those that these cards give.
    pub open spec fn wf(self) -> bool {
        match spec_run(ValidatorState::initial(), keywords_of(self.cards)) {
            Ok(state) => {
                &&& state.wf()
                &&& state.stage == Stage::ExpectEnd
                &&& state.bitpix == Some(self.bitpix)
                &&& state.axes() == self.axes
            },
            Err(_) => false,
        }
    }
}

impl<'a> View for PrimaryHeader<'a> {
    type V = HeaderView;

    closed spec fn view(&self) -> HeaderView {
        HeaderView { cards: cards_view(self.cards@), bitpix: self.bitpix, axes: self.axes@ }
    }
}

/// The number of bytes between `end` and the next multiple of `BLOCK_LEN`
/// at or after it.
pub open spec fn spec_padding(end: int) -> int {
    (BLOCK_LEN - end % (BLOCK_LEN as int)) % (BLOCK_LEN as int)
}

/// Reading `buf` record by record from `position`, in the state `state` and
/// with the cards `cards` read so far: where the `END` record ends, the state
/// then, and the cards before `END`; or the first error. The buffer is
/// incomplete where it ends before `END` was read.
pub open spec fn spec_scan(
    buf: Seq<u8>,
    position: int,
    state: ValidatorState,
    cards: Seq<(Seq<u8>, FITSHeaderKeyword)>,
) -> Result<(int, ValidatorState, Seq<(Seq<u8>, FITSHeaderKeyword)>), Error>
    decreases buf.len() - position,
{
    if position < 0 || buf.len() - position < RECORD_LEN {
        Err(Error::Incomplete { needed: (RECORD_LEN - (buf.len() - position)) as usize })
    } else {
        match spec_card(buf.subrange(position, position + RECORD_LEN), position as usize) {
            Err(error) => Err(error),
            Ok(card) => match state.next(card.1) {
                Err(fault) => Err(fault.at(position as usize)),
                Ok(after) => if after.stage == Stage::Done {
                    Ok((position + RECORD_LEN, after, cards))
                } else {
                    spec_scan(buf, position + RECORD_LEN, after, cards.push(card))
                },
            },
        }
    }
}

/// The length of the header block at the start of `buf`: from the first byte
/// to the end of the record that holds `END`, and on to the next multiple of
/// `BLOCK_LEN`. An error where no valid header ends with `END` in `buf`.
pub open spec fn spec_header_len(buf: Seq<u8>) -> Result<int, Error> {
    match spec_scan(buf, 0, ValidatorState::initial(), Seq::empty()) {
        Err(error) => Err(error),
        Ok((end, _, _)) => Ok(end + spec_padding(end)),
    }
}

/// The header at the start of `buf` and the bytes that follow the header
/// block, or why there is none. After `END` the buffer must reach the next
/// multiple of `BLOCK_LEN`; what stands between is not looked at.
pub open spec fn spec_header(buf: Seq<u8>) -> Result<(Seq<u8>, HeaderView), Error> {
    match spec_scan(buf, 0, ValidatorState::initial(), Seq::empty()) {
        Err(error) => Err(error),
        Ok((end, state, cards)) => {
            let block_len = end + spec_padding(end);
            if buf.len() < block_len {
                Err(Error::Incomplete { needed: (block_len - buf.len()) as usize })
            } else {
                Ok(
                    (
                        buf.skip(block_len),
                        HeaderView { cards, bitpix: state.bitpix->0, axes: state.axes() },
                    ),
                )
            }
        },
    }
}

/// The outcome of reading a header with the rest of the buffer and the
/// header replaced by what they hold.
pub open spec fn header_result_view(res: Result<(&[u8], PrimaryHeader), Error>) -> Result<
    (Seq<u8>, HeaderView),
    Error,
> {
    match res {
        Ok((rest, header)) => Ok((rest@, header@)),
        Err(error) => Err(error),
    }
}

impl<'a> PrimaryHeader<'a> {
    /// Reads the header block at the start of `buf`: the header, and the
    /// rest of `buf` from the end of the block on.
    pub fn new(buf: &'a [u8]) -> (res: Result<(&'a [u8], PrimaryHeader<'a>), Error>)
        ensures
            header_result_view(res) == spec_header(buf@),
            res matches Ok((rest, header)) ==> {
                &&& header@.wf()
                &&& rest@.len() <= buf@.len()
                &&& (buf@.len() - rest@.len()) % (BLOCK_LEN as int) == 0
            },
    {
        let mut cards: Vec<(&'a [u8], FITSHeaderKeyword)> = Vec::new();
        let mut validator = HeaderValidator::new();
        let mut position: usize = 0;
        assert(cards_view(cards@) =~= Seq::empty());
        assert(keywords_of(cards_view(cards@)) =~= Seq::empty());
        loop
            invariant_except_break
                validator@.stage != Stage::Done,
                spec_scan(buf@, 0, ValidatorState::initial(), Seq::empty()) == spec_scan(
                    buf@,
                    position as int,
                    validator@,
                    cards_view(cards@),
                ),
                spec_run(ValidatorState::initial(), keywords_of(cards_view(cards@))) == Ok::<
                    ValidatorState,
                    HeaderFault,
                >(validator@),
            invariant
                position <= buf@.len(),
                validator.wf(),
            ensures
                position <= buf@.len(),
                validator.wf(),
                validator@.stage == Stage::Done,
                spec_scan(buf@, 0, ValidatorState::initial(), Seq::empty()) == Ok::<
                    (int, ValidatorState, Seq<(Seq<u8>, FITSHeaderKeyword)>),
                    Error,
                >((position as int, validator@, cards_view(cards@))),
                (HeaderView {
                    cards: cards_view(cards@),
                    bitpix: validator@.bitpix->0,
                    axes: validator@.axes(),
                }).wf(),
            decreases buf@.len() - position,
        {
            if buf.len() - position < RECORD_LEN {
                return Err(Error::Incomplete { needed: RECORD_LEN - (buf.len() - position) });
            }
            let record = slice_subrange(buf, position, position + RECORD_LEN);
            let (name, keyword) = match parse_card(record, position) {
                Ok(card) => card,
                Err(error) => {
                    return Err(error);
                },
            };
            proof {
                validator.lemma_state_wf();
            }
            match validator.step(keyword) {
                Ok(()) => {},
                Err(fault) => {
                    return Err(fault.at(position));
                },
            }
            position = position + RECORD_LEN;
            if validator.is_done() {
                proof {
                    validator.lemma_state_wf();
                    assert(keyword == FITSHeaderKeyword::End);
                }
                break ;
            }
            let ghost cards_before = cards_view(cards@);
            cards.push((name, keyword));
            proof {
                assert(cards_view(cards@) =~= cards_before.push((name@, keyword)));
                assert(keywords_of(cards_view(cards@)).drop_last() =~= keywords_of(cards_before));
            }
        }
        let remainder = position % BLOCK_LEN;
        let padding: usize = if remainder == 0 {
            0
        } else {
            BLOCK_LEN - remainder
        };
        if buf.len() - position < padding {
            return Err(Error::Incomplete { needed: padding - (buf.len() - position) });
        }
        let rest = slice_subrange(buf, position + padding, buf.len());
        let (bitpix, axes) = validator.finish();
        Ok((rest, PrimaryHeader { cards, bitpix, axes }))
    }

    /// The cards before `END` in the order of the file.
    pub fn get_cards(&self) -> (cards: &Vec<(&'a [u8], FITSHeaderKeyword)>)
        ensures
            cards_view(cards@) == self@.cards,
    {
        &self.cards
    }

    /// The number of axes of the data unit.
    pub fn get_naxis(&self) -> (naxis: usize)
        ensures
            naxis == self@.axes.len(),
    {
        self.axes.len()
    }

    /// The size of axis `idx`, where the axes are counted from 1; `None`
    /// where the header has no such axis.
    pub fn get_axis_size(&self, idx: usize) -> (size: Option<usize>)
        ensures
            size == if 1 <= idx <= self@.axes.len() {
                Some(self@.axes[idx - 1])
            } else {
                None
            },
    {
        if 1 <= idx && idx <= self.axes.len() {
            Some(self.axes[idx - 1])
        } else {
            None
        }
    }

    /// The element type of the data unit.
    pub fn get_bitpix(&self) -> (bitpix: BitpixValue)
        ensures
            bitpix == self@.bitpix,
    {
        self.bitpix
    }
}

} // verus!
