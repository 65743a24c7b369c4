//! What a valid header holds, said of its cards.
use crate::card::FITSHeaderKeyword;
use crate::primary_header::{keywords_of, HeaderView};
use crate::validator::{lemma_count_zero, lemma_next_wf, spec_run, Stage, ValidatorState};
use vstd::prelude::*;

verus! {

/// Where the mandatory cards stand among the cards of a header: the place
/// of the `SIMPLE` card, of the `BITPIX` and the `NAXIS` card that count,
/// and, for each axis in turn, of its `NAXISn` card.
pub struct CardPlaces {
    pub simple: int,
    pub bitpix: int,
    pub naxis: int,
    pub axes: Seq<int>,
}

/// The cards `keywords` have led the validator to `state`, and `at` says
/// where the cards stand that brought it there.
///
/// - Before `SIMPLE` there are only cards that are not looked into.
/// - The `BITPIX` and the `NAXIS` card stand after `SIMPLE`, and hold the
///   element type and the number of axes of the state. Each is the first of
///   its kind.
/// - Each axis that has its size has it from its own card, which stands
///   after both `BITPIX` and `NAXIS`.
/// - Until the validator is done there is no other `NAXISn` card, each one
///   being the card of its axis, and `END` is not among the cards.
pub open spec fn places_explain(
    keywords: Seq<FITSHeaderKeyword>,
    state: ValidatorState,
    at: CardPlaces,
) -> bool {
    &&& state.stage == Stage::ExpectSimple ==> forall|j: int|
        0 <= j < keywords.len() ==> #[trigger] keywords[j] == FITSHeaderKeyword::Other
    &&& state.stage != Stage::ExpectSimple ==> {
        &&& 0 <= at.simple < keywords.len()
        &&& keywords[at.simple] == FITSHeaderKeyword::Simple
        &&& forall|j: int|
            0 <= j < at.simple ==> #[trigger] keywords[j] == FITSHeaderKeyword::Other
    }
    &&& state.bitpix matches Some(bitpix) ==> {
        &&& at.simple < at.bitpix < keywords.len()
        &&& keywords[at.bitpix] == FITSHeaderKeyword::Bitpix(bitpix)
    }
    &&& state.naxis matches Some(count) ==> {
        &&& at.simple < at.naxis < keywords.len()
        &&& keywords[at.naxis] == FITSHeaderKeyword::Naxis(count)
    }
    &&& forall|j: int|
        0 <= j < keywords.len() && (state.bitpix is Some ==> j < at.bitpix) ==> !((
        #[trigger] keywords[j]) is Bitpix)
    &&& forall|j: int|
        0 <= j < keywords.len() && (state.naxis is Some ==> j < at.naxis) ==> !((
        #[trigger] keywords[j]) is Naxis)
    &&& at.axes.len() == state.sizes.len()
    &&& forall|i: int|
        0 <= i < state.sizes.len() ==> ((#[trigger] state.sizes[i]) matches Some(size) ==> {
            &&& at.bitpix < at.axes[i] < keywords.len()
            &&& at.naxis < at.axes[i]
            &&& keywords[at.axes[i]] == FITSHeaderKeyword::NaxisSize { idx: (i + 1) as usize, size }
        })
    &&& state.stage != Stage::Done ==> forall|j: int|
        0 <= j < keywords.len() ==> ((#[trigger] keywords[j]) matches FITSHeaderKeyword::NaxisSize {
            idx,
            size,
        } ==> {
            &&& 1 <= idx <= state.sizes.len()
            &&& state.sizes[idx - 1] == Some(size)
            &&& at.axes[idx - 1] == j
        })
    &&& state.stage != Stage::Done ==> forall|j: int|
        0 <= j < keywords.len() ==> #[trigger] keywords[j] != FITSHeaderKeyword::End
}

/// Whatever state cards lead the validator to, the mandatory cards that
/// brought it there stand among them, in their order.
pub proof fn lemma_places(keywords: Seq<FITSHeaderKeyword>) -> (at: CardPlaces)
    requires
        spec_run(ValidatorState::initial(), keywords) is Ok,
    ensures
        spec_run(ValidatorState::initial(), keywords)->Ok_0.wf(),
        places_explain(keywords, spec_run(ValidatorState::initial(), keywords)->Ok_0, at),
    decreases keywords.len(),
{
    if keywords.len() == 0 {
        CardPlaces { simple: 0, bitpix: 0, naxis: 0, axes: Seq::empty() }
    } else {
        let earlier = keywords.drop_last();
        let card = keywords.last();
        let before = spec_run(ValidatorState::initial(), earlier)->Ok_0;
        let after = before.next(card)->Ok_0;
        let old_at = lemma_places(earlier);
        lemma_next_wf(before, card);
        assert forall|j: int| 0 <= j < earlier.len() implies keywords[j] == earlier[j] by {}
        let last = keywords.len() - 1;
        let at = match (before.stage, card) {
            (Stage::ExpectSimple, FITSHeaderKeyword::Simple) => CardPlaces {
                simple: last,
                ..old_at
            },
            (Stage::ExpectTypeAndCount, FITSHeaderKeyword::Bitpix(_)) => if before.bitpix
                is None {
                CardPlaces { bitpix: last, ..old_at }
            } else {
                old_at
            },
            (Stage::ExpectTypeAndCount, FITSHeaderKeyword::Naxis(count)) => if before.naxis
                is None {
                CardPlaces { naxis: last, axes: Seq::new(count as nat, |i: int| 0int), ..old_at }
            } else {
                old_at
            },
            (Stage::ExpectAxes, FITSHeaderKeyword::NaxisSize { idx, size }) => CardPlaces {
                axes: old_at.axes.update(idx - 1, last),
                ..old_at
            },
            _ => old_at,
        };
        assert forall|j: int|
            0 <= j < keywords.len() && after.stage != Stage::Done implies ((
        #[trigger] keywords[j]) matches FITSHeaderKeyword::NaxisSize { idx, size } ==> {
            &&& 1 <= idx <= after.sizes.len()
            &&& after.sizes[idx - 1] == Some(size)
            &&& at.axes[idx - 1] == j
        }) by {
            if j < last {
                assert(earlier[j] == keywords[j]);
            }
        }
        assert forall|i: int| 0 <= i < after.sizes.len() implies ((#[trigger] after.sizes[i])
            matches Some(size) ==> {
            &&& at.bitpix < at.axes[i] < keywords.len()
            &&& at.naxis < at.axes[i]
            &&& keywords[at.axes[i]] == FITSHeaderKeyword::NaxisSize { idx: (i + 1) as usize, size }
        }) by {
            if i < before.sizes.len() && before.sizes[i] is Some {
                assert(earlier[old_at.axes[i]] == keywords[old_at.axes[i]]);
            }
        }
        assert forall|j: int| 0 <= j < keywords.len() && after.stage != Stage::Done implies (
        #[trigger] keywords[j]) != FITSHeaderKeyword::End by {
            if j < last {
                assert(earlier[j] == keywords[j]);
            }
        }
        assert forall|j: int|
            0 <= j < keywords.len() && after.stage == Stage::ExpectSimple implies (
        #[trigger] keywords[j]) == FITSHeaderKeyword::Other by {
            if j < last {
                assert(earlier[j] == keywords[j]);
            }
        }
        assert forall|j: int|
            0 <= j < keywords.len() && (after.bitpix is Some ==> j < at.bitpix) implies !((
        #[trigger] keywords[j]) is Bitpix) by {
            if j < last {
                assert(earlier[j] == keywords[j]);
            }
        }
        assert forall|j: int|
            0 <= j < keywords.len() && (after.naxis is Some ==> j < at.naxis) implies !((
        #[trigger] keywords[j]) is Naxis) by {
            if j < last {
                assert(earlier[j] == keywords[j]);
            }
        }
        assert forall|j: int| 0 <= j < at.simple && after.stage != Stage::ExpectSimple implies (
        #[trigger] keywords[j]) == FITSHeaderKeyword::Other by {
            assert(earlier[j] == keywords[j]);
        }
        if before.stage != Stage::ExpectSimple {
            assert(earlier[old_at.simple] == keywords[old_at.simple]);
        }
        if before.bitpix is Some {
            assert(earlier[old_at.bitpix] == keywords[old_at.bitpix]);
        }
        if before.naxis is Some {
            assert(earlier[old_at.naxis] == keywords[old_at.naxis]);
        }
        at
    }
}

/// A valid header holds the mandatory cards in their order. `SIMPLE` comes
/// first but for cards that are not looked into. The first `BITPIX` card,
/// which gives the element type, and the first `NAXIS` card, which gives the
/// number of axes, follow it. Each axis has exactly one `NAXISn` card, which
/// gives its size and follows both; there is no `NAXISn` card for anything
/// but an axis of the header. `END` is not among the cards.
pub proof fn valid_header_holds_the_mandatory_cards(header: HeaderView) -> (at: CardPlaces)
    requires
        header.wf(),
    ensures
        0 <= at.simple < at.bitpix < header.cards.len(),
        at.simple < at.naxis < header.cards.len(),
        header.cards[at.simple].1 == FITSHeaderKeyword::Simple,
        forall|j: int|
            0 <= j < at.simple ==> (#[trigger] header.cards[j]).1 == FITSHeaderKeyword::Other,
        header.cards[at.bitpix].1 == FITSHeaderKeyword::Bitpix(header.bitpix),
        forall|j: int| 0 <= j < at.bitpix ==> !((#[trigger] header.cards[j]).1 is Bitpix),
        header.cards[at.naxis].1 == FITSHeaderKeyword::Naxis(header.axes.len() as usize),
        forall|j: int| 0 <= j < at.naxis ==> !((#[trigger] header.cards[j]).1 is Naxis),
        at.axes.len() == header.axes.len(),
        forall|i: int|
            0 <= i < header.axes.len() ==> {
                &&& at.bitpix < (#[trigger] at.axes[i]) < header.cards.len()
                &&& at.naxis < at.axes[i]
                &&& header.cards[at.axes[i]].1 == FITSHeaderKeyword::NaxisSize {
                    idx: (i + 1) as usize,
                    size: header.axes[i],
                }
            },
        forall|j: int|
            0 <= j < header.cards.len() ==> ((#[trigger] header.cards[j]).1
                matches FITSHeaderKeyword::NaxisSize { idx, size } ==> {
                &&& 1 <= idx <= header.axes.len()
                &&& at.axes[idx - 1] == j
            }),
        forall|j: int|
            0 <= j < header.cards.len() ==> (#[trigger] header.cards[j]).1
                != FITSHeaderKeyword::End,
{
    let keywords = keywords_of(header.cards);
    let state = spec_run(ValidatorState::initial(), keywords)->Ok_0;
    let at = lemma_places(keywords);
    lemma_count_zero(state.sizes);
    assert forall|j: int| 0 <= j < header.cards.len() implies (#[trigger] header.cards[j]).1
        == keywords[j] by {}
    assert forall|i: int| 0 <= i < header.axes.len() implies {
        &&& at.bitpix < (#[trigger] at.axes[i]) < header.cards.len()
        &&& at.naxis < at.axes[i]
        &&& header.cards[at.axes[i]].1 == FITSHeaderKeyword::NaxisSize {
            idx: (i + 1) as usize,
            size: header.axes[i],
        }
    } by {
        assert(state.sizes[i] is Some);
        assert(header.axes[i] == state.sizes[i]->0);
    }
    at
}

} // verus!
