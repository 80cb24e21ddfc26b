//! Parsing and normalisation of the names that ROM cataloguing groups give to
//! game dumps, and of the entries of their DAT files.

pub mod text;
pub mod region;
pub mod naming;
pub mod error;
pub mod stone;
pub mod dat;
pub mod sortrules;
