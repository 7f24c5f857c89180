//! The insertion modes of the tree builder.

use vstd::prelude::*;

verus! {

/// The insertion mode, which decides how the tree builder handles a token.
#[derive(Debug, Clone)]
pub enum InsertMode {
    Initial,
    BeforeHtml,
    BeforeHead,
    InHead,
    AfterHead,
    InBody,
    AfterBody,
    AfterAfterBody,
    Text,
    InTable,
    InTableText,
    InTableBody,
    InRow,
    InCell,
    InCaption,
    InColumnGroup,
    InSelect,
    InSelectInTable,
}

} // verus!
