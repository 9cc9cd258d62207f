//! Parsing and applying `*** Begin Patch` style patches.
pub mod types;
pub mod error;
pub mod hunk_match;
pub mod laws;
pub mod apply;
pub mod execute;
pub mod parse;
pub mod paths;
