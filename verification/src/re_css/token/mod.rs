//! Recognizers for the tokens of CSS syntax. Each takes the input and, where
//! a token starts there, hands back the rest of the input and the token's text.

pub mod at_keyword;
pub mod escape;
pub mod function;
pub mod hash;
pub mod ident;
pub mod number;
pub mod string;
pub mod unicode;
pub mod url;
pub mod utils;

use vstd::prelude::*;

verus! {

/// The kind of bracket a simple block is enclosed in.
#[derive(Debug, PartialEq)]
pub enum Bracket {
    Square, // [
    Curly,  // {
    Round,  // (
}

} // verus!
