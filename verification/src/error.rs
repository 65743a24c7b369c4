//! The ways in which decoding a FITS buffer can fail.
use vstd::prelude::*;

verus! {

/// A card that every primary header must hold before its `END` card.
#[derive(Clone, Copy, Debug, PartialEq, Eq, Structural)]
pub enum Mandatory {
    /// The `SIMPLE` card.
    Simple,
    /// The `BITPIX` card.
    Bitpix,
    /// The `NAXIS` card.
    Naxis,
    /// One of the `NAXISn` cards that `NAXIS` announces.
    NaxisSize,
}

/// Why a buffer could not be decoded. Every error ends the parse: nothing is
/// recovered and no partial result is handed out.
///
/// `position` is the byte offset, from the start of the buffer, of the header
/// record that the error is about.
#[derive(Clone, Copy, Debug, PartialEq, Eq, Structural)]
pub enum Error {
    /// The buffer ends before the next record, the padding of the header
    /// block, or the whole data unit. `needed` more bytes would let the parse
    /// get past this point; a caller that receives its input in pieces may
    /// try again from the start once it has them.
    Incomplete { needed: usize },
    /// The record at `position` has no value indicator where one is
    /// required, or its value is not an integer that the card can hold.
    MalformedCard { position: usize },
    /// The `BITPIX` card at `position` holds an integer that is none of
    /// 8, 16, 32, 64, -32 and -64.
    UnsupportedBitpix { position: usize },
    /// The mandatory card at `position` comes before a card that must
    /// precede it, or it is an axis card whose index is outside the range
    /// that `NAXIS` declares or has already been given.
    HeaderOrder { position: usize },
    /// The `END` card at `position` was reached while `keyword` was still
    /// missing.
    MissingMandatory { keyword: Mandatory, position: usize },
    /// The number of elements of the data unit, or its length in bytes, does
    /// not fit in a `usize`.
    Overflow,
}

/// Why the cards of a header, taken in order, do not make a valid header.
/// It says nothing of where the offending card stands: see `at`.
#[derive(Clone, Copy, Debug, PartialEq, Eq, Structural)]
pub enum HeaderFault {
    /// A mandatory card comes before a card that must precede it, or it is
    /// an axis card whose index is outside the range that `NAXIS` declares or
    /// has already been given.
    Order,
    /// The `END` card was reached while this card was still missing.
    Missing(Mandatory),
}

impl HeaderFault {
    /// The error that reports this fault for the record at `position`.
    pub open spec fn spec_at(self, position: usize) -> Error {
        match self {
            HeaderFault::Order => Error::HeaderOrder { position },
            HeaderFault::Missing(keyword) => Error::MissingMandatory { keyword, position },
        }
    }

    /// The error that reports this fault for the record at `position`.
    #[verifier::when_used_as_spec(spec_at)]
    pub fn at(self, position: usize) -> (error: Error)
        ensures
            error == self.spec_at(position),
    {
        match self {
            HeaderFault::Order => Error::HeaderOrder { position },
            HeaderFault::Missing(keyword) => Error::MissingMandatory { keyword, position },
        }
    }
}

} // verus!
