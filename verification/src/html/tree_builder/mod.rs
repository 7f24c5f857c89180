//! The bookkeeping of the character parser's tree builder: its insertion
//! modes, the stack of open elements and the list of active formatting
//! elements, over handles on the document's element nodes.

pub mod insert_mode;
pub mod list_of_active_formatting_elements;
pub mod node;
pub mod stack_of_open_elements;
