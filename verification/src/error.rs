//! The crate-wide error taxonomy: cursor failures, decompression failures
//! and invalid block bitfields, each carried through unchanged from the
//! component that raised it.

use vstd::prelude::*;

use crate::lz77::{spec_lz_error_message, LzError};
use crate::mapping::block::{spec_invalid_block_message, InvalidBlock};
use crate::rom::{spec_rom_error_message, RomError};

verus! {

/// Any failure a decode can surface: the cursor's own errors, a malformed
/// compressed stream, or an invalid block bitfield.
#[non_exhaustive]
#[derive(Clone, Copy, Debug, PartialEq, Eq)]
pub enum Error {
    /// A seek to address zero was attempted.
    SeekToNullError,
    /// A read or write would leave the buffer; carries the offending offset.
    OutOfBoundsError(usize),
    /// A 32-bit word expected to be a pointer was neither zero nor in the
    /// virtual range; carries the word's position and raw value.
    InvalidAddress(usize, u32),
    /// The decompression engine failed.
    LzError(LzError),
    /// A block bitfield held an enumeration value outside its valid set.
    InvalidBlock(InvalidBlock),
}

/// What a crate-wide error reads as: its component's own text.
pub open spec fn spec_error_message(e: Error) -> Seq<char> {
    match e {
        Error::SeekToNullError => spec_rom_error_message(RomError::SeekToNullError),
        Error::OutOfBoundsError(a) => spec_rom_error_message(RomError::OutOfBoundsError(a)),
        Error::InvalidAddress(a, v) => spec_rom_error_message(RomError::InvalidAddress(a, v)),
        Error::LzError(le) => spec_lz_error_message(le),
        Error::InvalidBlock(ib) => spec_invalid_block_message(ib),
    }
}

impl Error {
    /// The error as readable text.
    pub fn message(&self) -> (r: String)
        ensures
            r@ == spec_error_message(*self),
    {
        match *self {
            Error::SeekToNullError => RomError::SeekToNullError.message(),
            Error::OutOfBoundsError(a) => RomError::OutOfBoundsError(a).message(),
            Error::InvalidAddress(a, v) => RomError::InvalidAddress(a, v).message(),
            Error::LzError(le) => le.message(),
            Error::InvalidBlock(ib) => ib.message(),
        }
    }
}

/// The crate-wide error a cursor failure surfaces as.
pub open spec fn spec_rom_error(e: RomError) -> Error {
    match e {
        RomError::SeekToNullError => Error::SeekToNullError,
        RomError::OutOfBoundsError(a) => Error::OutOfBoundsError(a),
        RomError::InvalidAddress(p, v) => Error::InvalidAddress(p, v),
    }
}

impl From<RomError> for Error {
    fn from(e: RomError) -> (r: Error) {
        match e {
            RomError::SeekToNullError => Error::SeekToNullError,
            RomError::OutOfBoundsError(a) => Error::OutOfBoundsError(a),
            RomError::InvalidAddress(p, v) => Error::InvalidAddress(p, v),
        }
    }
}

impl vstd::std_specs::convert::FromSpecImpl<RomError> for Error {
    open spec fn obeys_from_spec() -> bool {
        true
    }

    open spec fn from_spec(e: RomError) -> Error {
        spec_rom_error(e)
    }
}

impl From<LzError> for Error {
    fn from(e: LzError) -> (r: Error) {
        Error::LzError(e)
    }
}

impl vstd::std_specs::convert::FromSpecImpl<LzError> for Error {
    open spec fn obeys_from_spec() -> bool {
        true
    }

    open spec fn from_spec(e: LzError) -> Error {
        Error::LzError(e)
    }
}

impl From<InvalidBlock> for Error {
    fn from(e: InvalidBlock) -> (r: Error) {
        Error::InvalidBlock(e)
    }
}

impl vstd::std_specs::convert::FromSpecImpl<InvalidBlock> for Error {
    open spec fn obeys_from_spec() -> bool {
        true
    }

    open spec fn from_spec(e: InvalidBlock) -> Error {
        Error::InvalidBlock(e)
    }
}

} // verus!
