//! Binary parameter archives (AAMP), version 2, little endian, UTF-8.
//!
//! Parameter structure names are stored as CRC-32 hashes ([`hash_name`],
//! [`Name`]); a [`ParameterIO`] holds a root [`ParameterList`], which holds
//! named [`ParameterObject`]s and named child lists; an object holds named
//! [`Parameter`]s. The fixed-size records of the binary form are in
//! [`records`].
pub mod hash;
pub mod name;
pub mod types;
pub mod parameter;
pub mod entries;
pub mod structure;
pub mod le;
pub mod records;

pub use hash::hash_name;
pub use name::Name;
pub use parameter::{Parameter, Type};
pub use structure::{
    root_key, ParameterIO, ParameterList, ParameterListMap, ParameterListing, ParameterObject,
    ParameterObjectMap,
};
