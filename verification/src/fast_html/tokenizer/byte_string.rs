use vstd::prelude::*;
use vstd::utf8::{valid_utf8, decode_utf8};
use ecow::EcoString;
use crate::eco::{eco_chars, eco_from_str, str_from_utf8};
use super::transition::is_ascii_ws;

verus! {

/// The string the bytes encode in UTF-8.
pub fn bytes_to_string(bytes: &[u8]) -> (res: EcoString)
    requires
        valid_utf8(bytes@),
    ensures
        eco_chars(res) == decode_utf8(bytes@),
{
    let s = match str_from_utf8(bytes) {
        Ok(s) => s,
        Err(_) => vstd::pervasive::unreached(),
    };
    eco_from_str(s)
}

/// Whether the byte is a space, a tab, a line feed, a carriage return or a form feed.
pub fn is_whitespace(c: u8) -> (res: bool)
    ensures
        res == is_ascii_ws(c),
{
    c == 0x20u8 || c == 0x09u8 || c == 0x0Au8 || c == 0x0Du8 || c == 0x0Cu8
}

} // verus!
