//! The states of the tokenizer's state machine.

use vstd::prelude::*;

verus! {

/// A state of the tokenizer.
#[derive(Debug, Clone, Copy, PartialEq, Eq, Structural)]
pub enum State {
    Data,
    RCDATA,
    RAWTEXT,
    RAWTEXTLessThanSign,
    RAWTEXTEndTagOpen,
    RAWTEXTEndTagName,
    RCDATALessThanSign,
    RCDATAEndTagOpen,
    RCDATAEndTagName,
    CharacterReference,
    NamedCharacterReference,
    NumericCharacterReference,
    TagName,
    TagOpen,
    EndTagOpen,
    SelfClosingStartTag,
    MarkupDeclarationOpen,
    CommentStart,
    BogusComment,
    BeforeAttributeName,
    AttributeName,
    AfterAttributeName,
    BeforeAttributeValue,
    AttributeValueDoubleQuoted,
    AttributeValueSingleQuoted,
    AttributeValueUnQuoted,
    AfterAttributeValueQuoted,
    DOCTYPE,
    BeforeDOCTYPEName,
    DOCTYPEName,
    AfterDOCTYPEName,
    BogusDOCTYPE,
}

} // verus!
