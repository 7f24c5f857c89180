//! The elements that the HTML standard calls special.

use vstd::prelude::*;
use vstd::string::StringSliceAdditionalSpecFns;
use crate::fast_html::tokenizer::bytes_equal;

verus! {

/// The names of the special elements.
pub const SPECIAL_ELEMENTS: [&'static str; 82] = [
    "address", "applet", "area", "article", "aside", "base", "basefont", "bgsound",
    "blockquote", "body", "br", "button", "caption", "center", "col", "colgroup",
    "dd", "details", "dir", "div", "dl", "dt", "embed", "fieldset",
    "figcaption", "figure", "footer", "form", "frame", "frameset", "h1", "h2",
    "h3", "h4", "h5", "h6", "head", "header", "hgroup", "hr",
    "html", "iframe", "img", "input", "keygen", "li", "link", "listing",
    "main", "marquee", "menu", "meta", "nav", "noembed", "noframes", "noscript",
    "object", "ol", "p", "param", "plaintext", "pre", "script", "section",
    "select", "source", "style", "summary", "table", "tbody", "td", "template",
    "textarea", "tfoot", "th", "thead", "title", "tr", "track", "ul",
    "wbr", "xmp",
];

/// The special element names as bytes.
pub open spec fn special_elements() -> Seq<Seq<u8>> {
    SPECIAL_ELEMENTS@.map_values(|s: &str| s.spec_bytes())
}

/// Whether `name` is the name of a special element.
pub fn is_special_element(name: &[u8]) -> (res: bool)
    ensures
        res == special_elements().contains(name@),
{
    let mut i: usize = 0;
    while i < 82
        invariant
            i <= 82,
            forall|j: int| 0 <= j < i ==> special_elements()[j] != name@,
        decreases 82 - i,
    {
        if bytes_equal(SPECIAL_ELEMENTS[i].as_bytes(), name) {
            assert(special_elements()[i as int] == name@);
            return true;
        }
        i += 1;
    }
    false
}

} // verus!
