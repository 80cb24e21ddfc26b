//! The errors of the library.

use vstd::prelude::*;
use crate::naming::common::NamingConvention;
use crate::region::RegionError;
use crate::stone::StoneError;

verus! {

/// Why a name or a DAT could not be read.
#[derive(Debug, PartialEq, Eq)]
pub enum ParseError {
    /// The DAT file itself could not be read; the message says why.
    ParseError(String),
    /// The name (second field) does not follow the naming convention (first field).
    BadFileNameError(NamingConvention, String),
    /// A region list could not be read.
    RegionError(RegionError),
    /// The DAT's header names another homepage (second field) than the
    /// expected one (first field).
    HeaderMismatchError(&'static str, Option<String>),
}


/// Why reading a DAT failed, as the earlier DAT readers report it.
#[derive(Debug, PartialEq, Eq)]
pub enum DatError {
    /// The DAT file itself could not be read; the message says why.
    ParseError(String),
    /// A name does not follow the naming convention.
    BadFileNameError(NamingConvention),
    /// A region list could not be read.
    RegionError(RegionError),
}

/// The errors of the whole program.
#[derive(Debug, PartialEq, Eq)]
pub enum ShiratsuError {
    StoneError(StoneError),
    ParseError(ParseError),
    /// An input or output error; the message says what happened.
    IOError(String),
}

impl ParseError {
    /// The error of a region list that could not be read.
    pub fn from_region_error(err: RegionError) -> (res: ParseError)
        ensures
            res == ParseError::RegionError(err),
    {
        ParseError::RegionError(err)
    }
}

impl DatError {
    /// The error of a region list that could not be read.
    pub fn from_region_error(err: RegionError) -> (res: DatError)
        ensures
            res == DatError::RegionError(err),
    {
        DatError::RegionError(err)
    }
}

impl ShiratsuError {
    /// The error of a name or DAT that could not be read.
    pub fn from_parse_error(err: ParseError) -> (res: ShiratsuError)
        ensures
            res == ShiratsuError::ParseError(err),
    {
        ShiratsuError::ParseError(err)
    }

    /// The error of the Stone data.
    pub fn from_stone_error(err: StoneError) -> (res: ShiratsuError)
        ensures
            res == ShiratsuError::StoneError(err),
    {
        ShiratsuError::StoneError(err)
    }
}

} // verus!
