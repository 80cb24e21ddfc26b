//! The naming conventions of ROM cataloguing groups, and what a name says
//! about the game it names.

pub mod common;
pub mod nointro;
pub mod tosec;
pub mod goodtools;

pub use common::{DevelopmentStatus, FlagType, NameInfo, NamingConvention, Version};
