//! The order of the mandatory cards, as a state machine.
//!
//! A header must hold `SIMPLE`, then `BITPIX` and `NAXIS` in either order,
//! then one `NAXISn` card for each axis that `NAXIS` declares, then `END`.
//! Other cards may stand anywhere between them, and so may a second `SIMPLE`,
//! `BITPIX` or `NAXIS` card, which changes nothing.
use crate::card::{BitpixValue, FITSHeaderKeyword};
use crate::error::{HeaderFault, Mandatory};
use vstd::prelude::*;

verus! {

/// What the validator waits for.
#[derive(Clone, Copy, Debug, PartialEq, Eq, Structural)]
pub enum Stage {
    /// Nothing has been seen but cards that are not looked into.
    ExpectSimple,
    /// `SIMPLE` has been seen, and at most one of `BITPIX` and `NAXIS`.
    ExpectTypeAndCount,
    /// `BITPIX` and `NAXIS` have been seen, and the size of at least one
    /// axis is still missing.
    ExpectAxes,
    /// Every mandatory card has been seen but `END`.
    ExpectEnd,
    /// `END` has been seen: the header is valid.
    Done,
}

/// The state of the validator.
pub struct ValidatorState {
    pub stage: Stage,
    /// The element type, once `BITPIX` has been seen.
    pub bitpix: Option<BitpixValue>,
    /// The number of axes, once `NAXIS` has been seen.
    pub naxis: Option<usize>,
    /// One place for each declared axis, in the order of the axes: the size
    /// of the axis once its card has been seen. Empty until `NAXIS` has been
    /// seen.
    pub sizes: Seq<Option<usize>>,
    /// The number of axes whose size is still missing.
    pub remaining: nat,
}

/// The number of places of `sizes` that are still empty.
pub open spec fn count_missing(sizes: Seq<Option<usize>>) -> nat
    decreases sizes.len(),
{
    if sizes.len() == 0 {
        0
    } else {
        count_missing(sizes.drop_last()) + if sizes.last() is None {
            1nat
        } else {
            0nat
        }
    }
}

/// `count` empty places.
pub open spec fn no_sizes(count: nat) -> Seq<Option<usize>> {
    Seq::new(count, |i: int| None)
}

impl ValidatorState {
    /// The state before any card.
    pub open spec fn initial() -> ValidatorState {
        ValidatorState {
            stage: Stage::ExpectSimple,
            bitpix: None,
            naxis: None,
            sizes: Seq::empty(),
            remaining: 0,
        }
    }

    /// What holds of every state that the cards of a header can lead to.
    pub open spec fn wf(self) -> bool {
        &&& self.remaining == count_missing(self.sizes)
        &&& match self.naxis {
            Some(count) => self.sizes.len() == count,
            None => self.sizes.len() == 0,
        }
        &&& match self.stage {
            Stage::ExpectSimple => self.bitpix is None && self.naxis is None,
            Stage::ExpectTypeAndCount => (self.bitpix is None || self.naxis is None) && (
            self.naxis is Some ==> self.sizes == no_sizes(self.sizes.len())),
            Stage::ExpectAxes => self.bitpix is Some && self.naxis is Some && self.remaining > 0,
            Stage::ExpectEnd => self.bitpix is Some && self.naxis is Some && self.remaining == 0,
            Stage::Done => self.bitpix is Some && self.naxis is Some && self.remaining == 0,
        }
    }

    /// The stage to go to once `BITPIX` and `NAXIS` have both been seen.
    pub open spec fn settled(self) -> ValidatorState {
        if self.bitpix is Some && self.naxis is Some {
            ValidatorState {
                stage: if self.remaining == 0 {
                    Stage::ExpectEnd
                } else {
                    Stage::ExpectAxes
                },
                ..self
            }
        } else {
            self
        }
    }

    /// The state after one more card, or why the card cannot stand here.
    ///
    /// - Before `SIMPLE`, a `BITPIX`, `NAXIS` or `NAXISn` card is out of
    ///   order.
    /// - Before both `BITPIX` and `NAXIS`, a `NAXISn` card is out of order.
    /// - A `NAXISn` card is out of order where its index is not one of
    ///   1 to `NAXIS`, or its axis has its size already: so after the last
    ///   axis every `NAXISn` card is.
    /// - `END` names the first mandatory card that is still missing, or
    ///   ends the header.
    /// - A card that is not looked into, and a mandatory card other than
    ///   `NAXISn` that has been seen before, leave the state as it is.
    /// - After `END` no card changes anything.
    pub open spec fn next(self, keyword: FITSHeaderKeyword) -> Result<ValidatorState, HeaderFault> {
        match self.stage {
            Stage::ExpectSimple => match keyword {
                FITSHeaderKeyword::Simple => Ok(
                    ValidatorState { stage: Stage::ExpectTypeAndCount, ..self },
                ),
                FITSHeaderKeyword::Other => Ok(self),
                FITSHeaderKeyword::End => Err(HeaderFault::Missing(Mandatory::Simple)),
                _ => Err(HeaderFault::Order),
            },
            Stage::ExpectTypeAndCount => match keyword {
                FITSHeaderKeyword::Bitpix(bitpix) => if self.bitpix is None {
                    Ok(ValidatorState { bitpix: Some(bitpix), ..self }.settled())
                } else {
                    Ok(self)
                },
                FITSHeaderKeyword::Naxis(count) => if self.naxis is None {
                    Ok(
                        ValidatorState {
                            naxis: Some(count),
                            sizes: no_sizes(count as nat),
                            remaining: count as nat,
                            ..self
                        }.settled(),
                    )
                } else {
                    Ok(self)
                },
                FITSHeaderKeyword::NaxisSize { .. } => Err(HeaderFault::Order),
                FITSHeaderKeyword::End => Err(
                    HeaderFault::Missing(
                        if self.bitpix is None {
                            Mandatory::Bitpix
                        } else {
                            Mandatory::Naxis
                        },
                    ),
                ),
                _ => Ok(self),
            },
            Stage::ExpectAxes => match keyword {
                FITSHeaderKeyword::NaxisSize { idx, size } => if 1 <= idx <= self.sizes.len()
                    && self.sizes[idx - 1] is None {
                    let remaining = (self.remaining - 1) as nat;
                    Ok(
                        ValidatorState {
                            stage: if remaining == 0 {
                                Stage::ExpectEnd
                            } else {
                                Stage::ExpectAxes
                            },
                            sizes: self.sizes.update(idx - 1, Some(size)),
                            remaining,
                            ..self
                        },
                    )
                } else {
                    Err(HeaderFault::Order)
                },
                FITSHeaderKeyword::End => Err(HeaderFault::Missing(Mandatory::NaxisSize)),
                _ => Ok(self),
            },
            Stage::ExpectEnd => match keyword {
                FITSHeaderKeyword::NaxisSize { .. } => Err(HeaderFault::Order),
                FITSHeaderKeyword::End => Ok(ValidatorState { stage: Stage::Done, ..self }),
                _ => Ok(self),
            },
            Stage::Done => Ok(self),
        }
    }

    /// The sizes of the axes in the order of the axes, once none is missing.
    pub open spec fn axes(self) -> Seq<usize> {
        Seq::new(self.sizes.len(), |i: int| self.sizes[i]->0)
    }
}

/// `count` empty places hold `count` empty places.
pub proof fn lemma_count_no_sizes(count: nat)
    ensures
        count_missing(no_sizes(count)) == count,
    decreases count,
{
    if count > 0 {
        lemma_count_no_sizes((count - 1) as nat);
        assert(no_sizes(count).drop_last() =~= no_sizes((count - 1) as nat));
    }
}

/// Filling an empty place leaves one empty place fewer.
pub proof fn lemma_count_update(sizes: Seq<Option<usize>>, place: int, size: usize)
    requires
        0 <= place < sizes.len(),
        sizes[place] is None,
    ensures
        count_missing(sizes.update(place, Some(size))) == count_missing(sizes) - 1,
    decreases sizes.len(),
{
    let filled = sizes.update(place, Some(size));
    if place == sizes.len() - 1 {
        assert(filled.drop_last() =~= sizes.drop_last());
    } else {
        lemma_count_update(sizes.drop_last(), place, size);
        assert(filled.drop_last() =~= sizes.drop_last().update(place, Some(size)));
    }
}

/// Where no place is empty, every place holds a size.
pub proof fn lemma_count_zero(sizes: Seq<Option<usize>>)
    requires
        count_missing(sizes) == 0,
    ensures
        forall|i: int| 0 <= i < sizes.len() ==> (#[trigger] sizes[i]) is Some,
    decreases sizes.len(),
{
    if sizes.len() > 0 {
        lemma_count_zero(sizes.drop_last());
        assert forall|i: int| 0 <= i < sizes.len() implies (#[trigger] sizes[i]) is Some by {
            if i < sizes.len() - 1 {
                assert(sizes[i] == sizes.drop_last()[i]);
            }
        }
    }
}

/// The state that the cards `keywords`, taken in order from `state`, lead
/// to, or the fault of the first card that cannot stand where it does.
pub open spec fn spec_run(state: ValidatorState, keywords: Seq<FITSHeaderKeyword>) -> Result<
    ValidatorState,
    HeaderFault,
>
    decreases keywords.len(),
{
    if keywords.len() == 0 {
        Ok(state)
    } else {
        match spec_run(state, keywords.drop_last()) {
            Ok(before) => before.next(keywords.last()),
            Err(fault) => Err(fault),
        }
    }
}

/// Every card leads from a well-formed state to a well-formed state.
pub proof fn lemma_next_wf(state: ValidatorState, keyword: FITSHeaderKeyword)
    requires
        state.wf(),
    ensures
        state.next(keyword) matches Ok(after) ==> after.wf(),
{
    match keyword {
        FITSHeaderKeyword::Naxis(count) => {
            lemma_count_no_sizes(count as nat);
        },
        FITSHeaderKeyword::NaxisSize { idx, size } => {
            if state.stage == Stage::ExpectAxes && 1 <= idx <= state.sizes.len() && state.sizes[idx
                - 1] is None {
                lemma_count_update(state.sizes, idx - 1, size);
            }
        },
        _ => {},
    }
}

/// The validator of a header: feed it the cards in order with `step`.
pub struct HeaderValidator {
    stage: Stage,
    bitpix: Option<BitpixValue>,
    naxis: Option<usize>,
    /// The sizes of the axes up to the last axis whose card has been seen.
    slots: Vec<Option<usize>>,
    remaining: usize,
}

impl View for HeaderValidator {
    type V = ValidatorState;

    closed spec fn view(&self) -> ValidatorState {
        ValidatorState {
            stage: self.stage,
            bitpix: self.bitpix,
            naxis: self.naxis,
            sizes: Seq::new(
                match self.naxis {
                    Some(count) => count as nat,
                    None => 0,
                },
                |i: int|
                    if i < self.slots@.len() {
                        self.slots@[i]
                    } else {
                        None
                    },
            ),
            remaining: self.remaining as nat,
        }
    }
}

impl HeaderValidator {
    /// What holds of every validator: its state is one that cards can lead
    /// to.
    pub closed spec fn wf(&self) -> bool {
        &&& self@.wf()
        &&& self.slots@.len() <= self@.sizes.len()
    }

    /// The state of a validator is one that cards can lead to.
    pub proof fn lemma_state_wf(&self)
        requires
            self.wf(),
        ensures
            self@.wf(),
    {
    }

    /// A validator that has seen no card.
    pub fn new() -> (validator: HeaderValidator)
        ensures
            validator.wf(),
            validator@ == ValidatorState::initial(),
    {
        let validator = HeaderValidator {
            stage: Stage::ExpectSimple,
            bitpix: None,
            naxis: None,
            slots: Vec::new(),
            remaining: 0,
        };
        assert(validator@.sizes =~= Seq::empty());
        validator
    }

    /// What the validator waits for.
    pub fn stage(&self) -> (stage: Stage)
        ensures
            stage == self@.stage,
    {
        self.stage
    }

    /// Whether `END` has been seen.
    pub fn is_done(&self) -> (done: bool)
        ensures
            done == (self@.stage == Stage::Done),
    {
        match self.stage {
            Stage::Done => true,
            _ => false,
        }
    }

    /// Goes on to the axes, or to `END`, once `BITPIX` and `NAXIS` have both
    /// been seen.
    fn settle(&mut self)
        ensures
            final(self)@ == old(self)@.settled(),
            final(self).slots == old(self).slots,
    {
        if self.bitpix.is_some() && self.naxis.is_some() {
            self.stage =
            if self.remaining == 0 {
                Stage::ExpectEnd
            } else {
                Stage::ExpectAxes
            };
        }
    }

    /// Stores the size of axis `idx`, which has none yet.
    fn fill(&mut self, idx: usize, size: usize)
        requires
            1 <= idx <= old(self)@.sizes.len(),
            old(self).slots@.len() <= old(self)@.sizes.len(),
            old(self)@.sizes[idx - 1] is None,
        ensures
            final(self)@.sizes == old(self)@.sizes.update(idx - 1, Some(size)),
            final(self).slots@.len() <= final(self)@.sizes.len(),
            final(self).stage == old(self).stage,
            final(self).bitpix == old(self).bitpix,
            final(self).naxis == old(self).naxis,
            final(self).remaining == old(self).remaining,
    {
        while self.slots.len() < idx
            invariant
                idx <= old(self)@.sizes.len(),
                self.slots@.len() <= old(self)@.sizes.len(),
                self@ == old(self)@,
                self.stage == old(self).stage,
                self.bitpix == old(self).bitpix,
                self.naxis == old(self).naxis,
                self.remaining == old(self).remaining,
            decreases idx - self.slots@.len(),
        {
            let ghost before = self@;
            self.slots.push(None);
            assert(self@.sizes =~= before.sizes);
        }
        self.slots.set(idx - 1, Some(size));
        assert(self@.sizes =~= old(self)@.sizes.update(idx - 1, Some(size)));
    }

    /// Takes the next card of the header. The validator goes to the state
    /// that `ValidatorState::next` gives, or reports the fault that it gives
    /// and stays as it was.
    pub fn step(&mut self, keyword: FITSHeaderKeyword) -> (res: Result<(), HeaderFault>)
        requires
            old(self).wf(),
        ensures
            final(self).wf(),
            match old(self)@.next(keyword) {
                Ok(after) => res is Ok && final(self)@ == after,
                Err(fault) => res == Err::<(), HeaderFault>(fault) && final(self)@ == old(self)@,
            },
    {
        proof {
            lemma_next_wf(self@, keyword);
        }
        match self.stage {
            Stage::ExpectSimple => match keyword {
                FITSHeaderKeyword::Simple => {
                    self.stage = Stage::ExpectTypeAndCount;
                    assert(self@.sizes =~= old(self)@.sizes);
                    Ok(())
                },
                FITSHeaderKeyword::Other => Ok(()),
                FITSHeaderKeyword::End => Err(HeaderFault::Missing(Mandatory::Simple)),
                _ => Err(HeaderFault::Order),
            },
            Stage::ExpectTypeAndCount => match keyword {
                FITSHeaderKeyword::Bitpix(bitpix) => {
                    if self.bitpix.is_none() {
                        self.bitpix = Some(bitpix);
                        assert(self@.sizes =~= old(self)@.sizes);
                        self.settle();
                    }
                    Ok(())
                },
                FITSHeaderKeyword::Naxis(count) => {
                    if self.naxis.is_none() {
                        self.naxis = Some(count);
                        self.remaining = count;
                        assert(self@.sizes =~= no_sizes(count as nat));
                        self.settle();
                    }
                    Ok(())
                },
                FITSHeaderKeyword::NaxisSize { .. } => Err(HeaderFault::Order),
                FITSHeaderKeyword::End => Err(
                    HeaderFault::Missing(
                        if self.bitpix.is_none() {
                            Mandatory::Bitpix
                        } else {
                            Mandatory::Naxis
                        },
                    ),
                ),
                _ => Ok(()),
            },
            Stage::ExpectAxes => match keyword {
                FITSHeaderKeyword::NaxisSize { idx, size } => {
                    let count = match self.naxis {
                        Some(count) => count,
                        None => 0,
                    };
                    if idx < 1 || idx > count {
                        return Err(HeaderFault::Order);
                    }
                    if idx <= self.slots.len() && self.slots[idx - 1].is_some() {
                        return Err(HeaderFault::Order);
                    }
                    self.fill(idx, size);
                    self.remaining = self.remaining - 1;
                    if self.remaining == 0 {
                        self.stage = Stage::ExpectEnd;
                    }
                    assert(self@.sizes =~= old(self)@.sizes.update(idx - 1, Some(size)));
                    Ok(())
                },
                FITSHeaderKeyword::End => Err(HeaderFault::Missing(Mandatory::NaxisSize)),
                _ => Ok(()),
            },
            Stage::ExpectEnd => match keyword {
                FITSHeaderKeyword::NaxisSize { .. } => Err(HeaderFault::Order),
                FITSHeaderKeyword::End => {
                    self.stage = Stage::Done;
                    assert(self@.sizes =~= old(self)@.sizes);
                    Ok(())
                },
                _ => Ok(()),
            },
            Stage::Done => Ok(()),
        }
    }

    /// The element type and the sizes of the axes, in the order of the
    /// axes, of a header that has every mandatory card.
    pub fn finish(self) -> (found: (BitpixValue, Vec<usize>))
        requires
            self.wf(),
            self@.stage == Stage::Done,
        ensures
            Some(found.0) == self@.bitpix,
            found.1@ == self@.axes(),
    {
        proof {
            lemma_count_zero(self@.sizes);
            assert forall|j: int| 0 <= j < self.slots@.len() implies (#[trigger] self.slots@[j])
                is Some by {
                assert(self@.sizes[j] is Some);
            }
        }
        let bitpix = match self.bitpix {
            Some(bitpix) => bitpix,
            None => BitpixValue::U8,
        };
        let mut axes: Vec<usize> = Vec::new();
        let mut i: usize = 0;
        while i < self.slots.len()
            invariant
                i <= self.slots@.len(),
                axes@.len() == i,
                forall|j: int| 0 <= j < self.slots@.len() ==> (#[trigger] self.slots@[j]) is Some,
                forall|j: int| 0 <= j < i ==> axes@[j] == (#[trigger] self.slots@[j])->0,
            decreases self.slots@.len() - i,
        {
            let size = match self.slots[i] {
                Some(size) => size,
                None => 0,
            };
            axes.push(size);
            i = i + 1;
        }
        proof {
            if self.slots@.len() < self@.sizes.len() {
                assert(self@.sizes[self.slots@.len() as int] is Some);
            }
            assert(axes@ =~= self@.axes());
        }
        (bitpix, axes)
    }
}

} // verus!
