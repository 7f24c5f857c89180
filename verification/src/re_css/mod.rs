//! CSS: the token recognizers of the syntax, the parser of component values,
//! declarations and rules, the values of the supported properties, and the
//! expansion of shorthand properties.

pub mod parser;
pub mod shorthand_property;
pub mod token;
pub mod value;
