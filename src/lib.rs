//! Unicode-aware word slicing: splits text into lowercase words at a fixed
//! set of delimiter graphemes and before uppercase graphemes.
pub mod unicode;
pub mod utils;
