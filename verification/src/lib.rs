//! A toy browser engine: two HTML tokenizers, the bookkeeping structures of
//! an HTML tree builder, CSS token recognizers, the CSS syntax parser and CSS
//! value keywords, and the layout box kinds, each with its contract.

pub mod eco;
pub mod fast_html;
pub mod re_css;
pub mod layout;
pub mod html;
