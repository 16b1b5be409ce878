//! Expands administrative region codes into hierarchical display names.
//!
//! A table of regions (a numeric code and a short name per line) is parsed,
//! each region's province and city ancestors are found by code-prefix
//! matching within the same table, and each region gets a display name made of
//! its ancestors' names and its own, joined by a delimiter.
pub mod compose;
pub mod output;
pub mod parse;
pub mod region;
pub mod resolve;
