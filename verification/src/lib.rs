//! A decoder for the primary header and data unit of a FITS file held in
//! memory.
//!
//! [`Fits::from_bytes_slice`] reads the header block, works out the number of
//! elements of the data unit from the axes that the header declares, and
//! decodes that many elements from the bytes that follow the header block.
//!
//! Every function is verified against its contract but for six private
//! functions of [`data_unit`], which call `nom` and `byteorder` and whose
//! contracts say what those calls are taken to do. Elements of the two
//! floating-point types are handed out as bit patterns.
pub mod big_endian;
pub mod card;
pub mod card_value;
pub mod data_unit;
pub mod error;
pub mod laws;
pub mod primary_header;
pub mod shape;
pub mod validator;
pub mod validity;

pub use crate::data_unit::{
    DataType, DataUnitF32, DataUnitF64, DataUnitI16, DataUnitI32, DataUnitI64, DataUnitU8,
};

use crate::data_unit::{spec_data_unit, DataView};
use crate::error::Error;
use crate::primary_header::{spec_header, HeaderView, PrimaryHeader};
use crate::shape::{num_items, spec_resolve};
use vstd::prelude::*;

verus! {

/// A decoded file: its primary header and its data unit.
#[derive(Debug, PartialEq)]
pub struct Fits<'a> {
    pub header: PrimaryHeader<'a>,
    pub data: DataType<'a>,
}

/// What a decoded file holds.
pub struct FitsView {
    pub header: HeaderView,
    pub data: DataView,
}

impl<'a> View for Fits<'a> {
    type V = FitsView;

    open spec fn view(&self) -> FitsView {
        FitsView { header: self.header@, data: self.data@ }
    }
}

/// What decoding `buf` gives: the header at its start, and the data unit
/// that the bytes after the header block spell, with the element type and
/// the number of elements that the header declares; or the first error on
/// the way. The data unit starts right where the header block ends: none of
/// its bytes is taken for padding.
pub open spec fn spec_fits(buf: Seq<u8>) -> Result<FitsView, Error> {
    match spec_header(buf) {
        Err(error) => Err(error),
        Ok((rest, header)) => match spec_resolve(header.axes) {
            Err(error) => Err(error),
            Ok(count) => match spec_data_unit(rest, header.bitpix, count as nat) {
                Err(error) => Err(error),
                Ok(data) => Ok(FitsView { header, data }),
            },
        },
    }
}

/// The outcome of a decoding with the file replaced by what it holds.
pub open spec fn fits_result_view(res: Result<Fits, Error>) -> Result<FitsView, Error> {
    match res {
        Ok(fits) => Ok(fits@),
        Err(error) => Err(error),
    }
}

impl<'a> Fits<'a> {
    /// Decodes the file that `buf` holds from its first byte on. Bytes after
    /// the data unit are left alone.
    pub fn from_bytes_slice(buf: &'a [u8]) -> (res: Result<Fits<'a>, Error>)
        ensures
            fits_result_view(res) == spec_fits(buf@),
            res matches Ok(fits) ==> fits@.header.wf(),
    {
        let (buf, header) = match PrimaryHeader::new(buf) {
            Ok(found) => found,
            Err(error) => {
                return Err(error);
            },
        };
        let num_items = match num_items(&header) {
            Ok(num_items) => num_items,
            Err(error) => {
                return Err(error);
            },
        };
        let data = match DataType::parse(buf, header.get_bitpix(), num_items) {
            Ok(data) => data,
            Err(error) => {
                return Err(error);
            },
        };
        Ok(Fits { header, data })
    }
}

} // verus!
