//! Verified loader for a memory-management tuning configuration.
//!
//! The library parses a structured-text configuration document into a fixed
//! schema (swappiness ranges, pressure-stall-information thresholds, virtual
//! memory switches), validating that every required field is present and of
//! the right type.  Reading the file and terminating the process on failure
//! are left to the surrounding program; the loader itself is a pure function
//! from document text to a `Configuration` value or an error.

pub mod bind;
pub mod load;
pub mod parse;
pub mod render;
pub mod schema;
pub mod yaml;
