//! The bookkeeping of the HTML tree builder: the insertion modes, the special
//! element names, the stack of open elements and the list of active formatting
//! elements, over handles on the document's element nodes.

pub mod element_types;
pub mod insert_mode;
pub mod list_of_active_formatting_elements;
pub mod node;
pub mod stack_of_open_elements;
