//! Magnet search: page scanning for the built-in search and the parsing of
//! an external hook command's output.

pub mod builtin;
pub mod pattern;
pub mod urls;
pub mod adapter;
