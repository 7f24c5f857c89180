//! The parser of CSS syntax: component values, declarations and rules.

pub mod structure;
pub mod parse;
