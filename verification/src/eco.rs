//! Trusted items for the `ecow` crate's string and vector, and for the UTF-8
//! decoding of std that the tokenizer leans on. Each item states what the
//! outside function does to the contents, as its source shows.

use vstd::prelude::*;
use vstd::utf8::{valid_utf8, decode_utf8};
use ecow::{EcoString, EcoVec};
use std::str::Utf8Error;
use crate::fast_html::tokenizer::token::{Attribute, AttributeView, Token, TokenView};
use crate::fast_html::tree_builder::list_of_active_formatting_elements::{Entry, EntryView};
use crate::fast_html::tree_builder::node::{NodePtr, NodeView};

verus! {

#[verifier::external_type_specification]
#[verifier::external_body]
pub struct ExEcoString(EcoString);

#[verifier::external_type_specification]
#[verifier::external_body]
#[verifier::reject_recursive_types(T)]
pub struct ExEcoVec<T>(EcoVec<T>);

#[verifier::external_type_specification]
#[verifier::external_body]
pub struct ExUtf8Error(Utf8Error);

/// The characters an `EcoString` holds.
pub uninterp spec fn eco_chars(s: EcoString) -> Seq<char>;

/// The attributes an `EcoVec<Attribute>` holds, each by its view.
pub uninterp spec fn attr_list(v: EcoVec<Attribute>) -> Seq<AttributeView>;

/// The tokens an `EcoVec<Token>` holds, each by its view.
pub uninterp spec fn token_list(v: EcoVec<Token>) -> Seq<TokenView>;

/// The bytes an `EcoVec<u8>` holds.
pub uninterp spec fn byte_list(v: EcoVec<u8>) -> Seq<u8>;

/// The indices an `EcoVec<usize>` holds.
pub uninterp spec fn index_list(v: EcoVec<usize>) -> Seq<usize>;

/// The node handles an `EcoVec<NodePtr>` holds, each by its view.
pub uninterp spec fn node_list(v: EcoVec<NodePtr>) -> Seq<NodeView>;

/// The entries an `EcoVec<Entry>` holds, each by its view.
pub uninterp spec fn entry_list(v: EcoVec<Entry>) -> Seq<EntryView>;

/// The byte strings an `EcoVec<&[u8]>` holds.
pub uninterp spec fn name_list(v: EcoVec<&[u8]>) -> Seq<Seq<u8>>;

/* std ---------------------------------------- */

/// `std::str::from_utf8`: succeeds exactly on valid UTF-8, and then the string
/// holds the decoded characters.
#[verifier::external_body]
pub(crate) fn str_from_utf8(bytes: &[u8]) -> (res: Result<&str, Utf8Error>)
    ensures
        res is Ok <==> valid_utf8(bytes@),
        res matches Ok(s) ==> s@ == decode_utf8(bytes@),
{
    std::str::from_utf8(bytes)
}

/// `String::push`: appends one character.
#[verifier::external_body]
pub(crate) fn string_push(s: &mut String, c: char)
    ensures
        final(s)@ == old(s)@.push(c),
{
    s.push(c)
}

/// `<str as PartialEq>::eq`: two string slices are equal when they hold the
/// same characters.
#[verifier::external_body]
pub(crate) fn str_eq(a: &str, b: &str) -> (res: bool)
    ensures
        res == (a@ == b@),
{
    a == b
}

/* EcoString ---------------------------------- */

/// `EcoString::new`: the empty string.
#[verifier::external_body]
pub(crate) fn eco_new() -> (res: EcoString)
    ensures
        eco_chars(res) == Seq::<char>::empty(),
{
    EcoString::new()
}

/// `EcoString::from(&str)`: a string holding the slice's characters.
#[verifier::external_body]
pub(crate) fn eco_from_str(s: &str) -> (res: EcoString)
    ensures
        eco_chars(res) == s@,
{
    EcoString::from(s)
}

/// `EcoString::from(char)`: a string holding the one character.
#[verifier::external_body]
pub(crate) fn eco_from_char(c: char) -> (res: EcoString)
    ensures
        eco_chars(res) == seq![c],
{
    EcoString::from(c)
}

/// `EcoString::push`: appends one character.
#[verifier::external_body]
pub(crate) fn eco_push(s: &mut EcoString, c: char)
    ensures
        eco_chars(*final(s)) == eco_chars(*old(s)).push(c),
{
    s.push(c)
}

/// `EcoString::push_str`: appends the slice's characters.
#[verifier::external_body]
pub(crate) fn eco_push_str(s: &mut EcoString, t: &str)
    ensures
        eco_chars(*final(s)) == eco_chars(*old(s)) + t@,
{
    s.push_str(t)
}

/// `<EcoString as Clone>::clone`: a string with the same characters.
#[verifier::external_body]
pub(crate) fn eco_clone(s: &EcoString) -> (res: EcoString)
    ensures
        eco_chars(res) == eco_chars(*s),
{
    s.clone()
}

/// `EcoString::clear`: removes every character.
#[verifier::external_body]
pub(crate) fn eco_clear(s: &mut EcoString)
    ensures
        eco_chars(*final(s)) == Seq::<char>::empty(),
{
    s.clear()
}

/// `EcoString::as_str`: the characters as a string slice.
#[verifier::external_body]
pub(crate) fn eco_as_str(s: &EcoString) -> (res: &str)
    ensures
        res@ == eco_chars(*s),
{
    s.as_str()
}

/// `<EcoString as PartialEq>::eq`: equal when the characters are equal.
#[verifier::external_body]
pub(crate) fn eco_eq(a: &EcoString, b: &EcoString) -> (res: bool)
    ensures
        res == (eco_chars(*a) == eco_chars(*b)),
{
    a == b
}

/* EcoVec<Attribute> -------------------------- */

/// `EcoVec::new`: no attributes.
#[verifier::external_body]
pub(crate) fn attrs_new() -> (res: EcoVec<Attribute>)
    ensures
        attr_list(res) == Seq::<AttributeView>::empty(),
{
    EcoVec::new()
}

/// `EcoVec::push`: appends an attribute.
#[verifier::external_body]
pub(crate) fn attrs_push(v: &mut EcoVec<Attribute>, a: Attribute)
    ensures
        attr_list(*final(v)) == attr_list(*old(v)).push(a@),
{
    v.push(a)
}

/// `EcoVec::pop`: takes off the last attribute, if any.
#[verifier::external_body]
pub(crate) fn attrs_pop(v: &mut EcoVec<Attribute>) -> (res: Option<Attribute>)
    ensures
        attr_list(*old(v)).len() == 0 ==> res is None && attr_list(*final(v)) == attr_list(*old(v)),
        attr_list(*old(v)).len() > 0 ==> (res matches Some(a) && a@ == attr_list(*old(v)).last()
            && attr_list(*final(v)) == attr_list(*old(v)).drop_last()),
{
    v.pop()
}

/// `EcoVec::remove`: takes out the attribute at `index`, shifting the rest down.
#[verifier::external_body]
pub(crate) fn attrs_remove(v: &mut EcoVec<Attribute>, index: usize) -> (res: Attribute)
    requires
        index < attr_list(*old(v)).len(),
    ensures
        res@ == attr_list(*old(v))[index as int],
        attr_list(*final(v)) == attr_list(*old(v)).remove(index as int),
{
    v.remove(index)
}

/// `EcoVec::len`: the number of attributes.
#[verifier::external_body]
pub(crate) fn attrs_len(v: &EcoVec<Attribute>) -> (res: usize)
    ensures
        res == attr_list(*v).len(),
{
    v.len()
}

/// Indexing: the attribute at `index`.
#[verifier::external_body]
pub(crate) fn attrs_get(v: &EcoVec<Attribute>, index: usize) -> (res: &Attribute)
    requires
        index < attr_list(*v).len(),
    ensures
        res@ == attr_list(*v)[index as int],
{
    &v[index]
}

/// `<EcoVec as Clone>::clone`: the same attributes.
#[verifier::external_body]
pub(crate) fn attrs_clone(v: &EcoVec<Attribute>) -> (res: EcoVec<Attribute>)
    ensures
        attr_list(res) == attr_list(*v),
{
    v.clone()
}

/* EcoVec<Token> ------------------------------ */

/// `EcoVec::new`: no tokens.
#[verifier::external_body]
pub(crate) fn tokens_new() -> (res: EcoVec<Token>)
    ensures
        token_list(res) == Seq::<TokenView>::empty(),
{
    EcoVec::new()
}

/// `EcoVec::push`: appends a token.
#[verifier::external_body]
pub(crate) fn tokens_push(v: &mut EcoVec<Token>, t: Token)
    ensures
        token_list(*final(v)) == token_list(*old(v)).push(t@),
{
    v.push(t)
}

/// `EcoVec::pop`: takes off the last token, if any.
#[verifier::external_body]
pub(crate) fn tokens_pop(v: &mut EcoVec<Token>) -> (res: Option<Token>)
    ensures
        token_list(*old(v)).len() == 0 ==> res is None && token_list(*final(v)) == token_list(*old(v)),
        token_list(*old(v)).len() > 0 ==> (res matches Some(t) && t@ == token_list(*old(v)).last()
            && token_list(*final(v)) == token_list(*old(v)).drop_last()),
{
    v.pop()
}

/// `EcoVec::is_empty`: whether there is no token.
#[verifier::external_body]
pub(crate) fn tokens_is_empty(v: &EcoVec<Token>) -> (res: bool)
    ensures
        res == (token_list(*v).len() == 0),
{
    v.is_empty()
}

/* EcoVec<u8> --------------------------------- */

/// `EcoVec::new`: no bytes.
#[verifier::external_body]
pub(crate) fn bytes_new() -> (res: EcoVec<u8>)
    ensures
        byte_list(res) == Seq::<u8>::empty(),
{
    EcoVec::new()
}

/// `EcoVec::clear`: removes every byte.
#[verifier::external_body]
pub(crate) fn bytes_clear(v: &mut EcoVec<u8>)
    ensures
        byte_list(*final(v)) == Seq::<u8>::empty(),
{
    v.clear()
}

/// `EcoVec::extend_from_slice`: appends the slice's bytes.
#[verifier::external_body]
pub(crate) fn bytes_extend_from_slice(v: &mut EcoVec<u8>, s: &[u8])
    ensures
        byte_list(*final(v)) == byte_list(*old(v)) + s@,
{
    v.extend_from_slice(s)
}

/// `EcoVec::as_slice`: the bytes as a slice.
#[verifier::external_body]
pub(crate) fn bytes_as_slice(v: &EcoVec<u8>) -> (res: &[u8])
    ensures
        res@ == byte_list(*v),
{
    v.as_slice()
}

/* EcoVec<usize> ------------------------------ */

/// `EcoVec::new`: no indices.
#[verifier::external_body]
pub(crate) fn indices_new() -> (res: EcoVec<usize>)
    ensures
        index_list(res) == Seq::<usize>::empty(),
{
    EcoVec::new()
}

/// `EcoVec::push`: appends an index.
#[verifier::external_body]
pub(crate) fn indices_push(v: &mut EcoVec<usize>, i: usize)
    ensures
        index_list(*final(v)) == index_list(*old(v)).push(i),
{
    v.push(i)
}

/// `EcoVec::len`: the number of indices.
#[verifier::external_body]
pub(crate) fn indices_len(v: &EcoVec<usize>) -> (res: usize)
    ensures
        res == index_list(*v).len(),
{
    v.len()
}

/// Indexing: the index stored at `i`.
#[verifier::external_body]
pub(crate) fn indices_get(v: &EcoVec<usize>, i: usize) -> (res: usize)
    requires
        i < index_list(*v).len(),
    ensures
        res == index_list(*v)[i as int],
{
    v[i]
}

/* EcoVec<NodePtr> ---------------------------- */

/// `EcoVec::new`: no nodes.
#[verifier::external_body]
pub(crate) fn nodes_new() -> (res: EcoVec<NodePtr>)
    ensures
        node_list(res) == Seq::<NodeView>::empty(),
{
    EcoVec::new()
}

/// `EcoVec::push`: appends a node handle.
#[verifier::external_body]
pub(crate) fn nodes_push(v: &mut EcoVec<NodePtr>, n: NodePtr)
    ensures
        node_list(*final(v)) == node_list(*old(v)).push(n@),
{
    v.push(n)
}

/// `EcoVec::pop`: takes off the last node handle, if any.
#[verifier::external_body]
pub(crate) fn nodes_pop(v: &mut EcoVec<NodePtr>) -> (res: Option<NodePtr>)
    ensures
        node_list(*old(v)).len() == 0 ==> res is None && node_list(*final(v)) == node_list(*old(v)),
        node_list(*old(v)).len() > 0 ==> (res matches Some(n) && n@ == node_list(*old(v)).last()
            && node_list(*final(v)) == node_list(*old(v)).drop_last()),
{
    v.pop()
}

/// `EcoVec::remove`: takes out the handle at `index`, shifting the rest down.
#[verifier::external_body]
pub(crate) fn nodes_remove(v: &mut EcoVec<NodePtr>, index: usize) -> (res: NodePtr)
    requires
        index < node_list(*old(v)).len(),
    ensures
        res@ == node_list(*old(v))[index as int],
        node_list(*final(v)) == node_list(*old(v)).remove(index as int),
{
    v.remove(index)
}

/// `EcoVec::len`: the number of node handles.
#[verifier::external_body]
pub(crate) fn nodes_len(v: &EcoVec<NodePtr>) -> (res: usize)
    ensures
        res == node_list(*v).len(),
{
    v.len()
}

/// Indexing: the handle at `index`.
#[verifier::external_body]
pub(crate) fn nodes_get(v: &EcoVec<NodePtr>, index: usize) -> (res: &NodePtr)
    requires
        index < node_list(*v).len(),
    ensures
        res@ == node_list(*v)[index as int],
{
    &v[index]
}

/* EcoVec<Entry> ------------------------------ */

/// `EcoVec::new`: no entries.
#[verifier::external_body]
pub(crate) fn entries_new() -> (res: EcoVec<Entry>)
    ensures
        entry_list(res) == Seq::<EntryView>::empty(),
{
    EcoVec::new()
}

/// `EcoVec::push`: appends an entry.
#[verifier::external_body]
pub(crate) fn entries_push(v: &mut EcoVec<Entry>, e: Entry)
    ensures
        entry_list(*final(v)) == entry_list(*old(v)).push(e@),
{
    v.push(e)
}

/// `EcoVec::remove`: takes out the entry at `index`, shifting the rest down.
#[verifier::external_body]
pub(crate) fn entries_remove(v: &mut EcoVec<Entry>, index: usize) -> (res: Entry)
    requires
        index < entry_list(*old(v)).len(),
    ensures
        res@ == entry_list(*old(v))[index as int],
        entry_list(*final(v)) == entry_list(*old(v)).remove(index as int),
{
    v.remove(index)
}

/// `EcoVec::len`: the number of entries.
#[verifier::external_body]
pub(crate) fn entries_len(v: &EcoVec<Entry>) -> (res: usize)
    ensures
        res == entry_list(*v).len(),
{
    v.len()
}

/// Indexing: the entry at `index`.
#[verifier::external_body]
pub(crate) fn entries_get(v: &EcoVec<Entry>, index: usize) -> (res: &Entry)
    requires
        index < entry_list(*v).len(),
    ensures
        res@ == entry_list(*v)[index as int],
{
    &v[index]
}

/* EcoVec<&[u8]> ------------------------------ */

/// `EcoVec::from` an array of nine byte strings: the same byte strings in order.
#[verifier::external_body]
pub(crate) fn names_from<'a>(a: [&'a [u8]; 9]) -> (res: EcoVec<&'a [u8]>)
    ensures
        name_list(res) == a@.map_values(|s: &[u8]| s@),
{
    EcoVec::from(a)
}

/// `EcoVec::push`: appends a byte string.
#[verifier::external_body]
pub(crate) fn names_push<'a>(v: &mut EcoVec<&'a [u8]>, s: &'a [u8])
    ensures
        name_list(*final(v)) == name_list(*old(v)).push(s@),
{
    v.push(s)
}

/// `EcoVec::len`: the number of byte strings.
#[verifier::external_body]
pub(crate) fn names_len(v: &EcoVec<&[u8]>) -> (res: usize)
    ensures
        res == name_list(*v).len(),
{
    v.len()
}

/// Indexing: the byte string at `index`.
#[verifier::external_body]
pub(crate) fn names_get<'a>(v: &EcoVec<&'a [u8]>, index: usize) -> (res: &'a [u8])
    requires
        index < name_list(*v).len(),
    ensures
        res@ == name_list(*v)[index as int],
{
    v[index]
}

} // verus!
