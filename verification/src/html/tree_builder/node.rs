//! Handles on the element nodes of the document being built.

use vstd::prelude::*;
use crate::eco::str_eq;

verus! {

/// A handle on an element node of the document: the node's identity, which
/// two handles share exactly when they point at the same node, and the
/// element's tag name.
#[derive(Debug)]
pub struct NodePtr {
    pub id: usize,
    pub tag_name: String,
}

/// What a handle holds: the node's identity and the tag name's characters.
pub struct NodeView {
    pub id: usize,
    pub tag_name: Seq<char>,
}

impl View for NodePtr {
    type V = NodeView;

    open spec fn view(&self) -> NodeView {
        NodeView { id: self.id, tag_name: self.tag_name@ }
    }
}

impl Clone for NodePtr {
    /// Another handle on the same node.
    fn clone(&self) -> (res: Self)
        ensures
            res@ == self@,
    {
        NodePtr { id: self.id, tag_name: self.tag_name.clone() }
    }
}

impl NodePtr {
    /// A handle on the node `id`, an element named `tag_name`.
    pub fn new(id: usize, tag_name: &str) -> (res: Self)
        ensures
            res@ == (NodeView { id, tag_name: tag_name@ }),
    {
        NodePtr { id, tag_name: tag_name.to_owned() }
    }

    /// Whether two handles point at the same node.
    pub fn ptr_eq(&self, other: &NodePtr) -> (res: bool)
        ensures
            res == (self.id == other.id),
    {
        self.id == other.id
    }

    /// The element's tag name.
    pub fn tag_name(&self) -> (res: &str)
        ensures
            res@ == self.tag_name@,
    {
        self.tag_name.as_str()
    }

    /// Whether the element is named `name`.
    pub fn is_named(&self, name: &str) -> (res: bool)
        ensures
            res == (self.tag_name@ == name@),
    {
        str_eq(self.tag_name.as_str(), name)
    }
}

} // verus!
