//! The HTML parser over characters: its tokenizer, the structures its tree
//! builder keeps (the insertion modes, the stack of open elements and the list
//! of active formatting elements), and the nesting of a document's node list
//! for display.

pub mod debugger;
pub mod tokenizer;
pub mod tree_builder;
