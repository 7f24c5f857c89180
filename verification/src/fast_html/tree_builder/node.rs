//! Handles on the element nodes of the document being built.

use vstd::prelude::*;

verus! {

/// A handle on an element node of the document: the node's identity, which
/// two handles share exactly when they point at the same node, and the
/// element's tag name.
#[derive(Debug)]
pub struct NodePtr {
    pub id: usize,
    pub tag_name: Vec<u8>,
}

/// What a handle holds: the node's identity and the tag name's bytes.
pub struct NodeView {
    pub id: usize,
    pub tag_name: Seq<u8>,
}

impl View for NodePtr {
    type V = NodeView;

    open spec fn view(&self) -> NodeView {
        NodeView { id: self.id, tag_name: self.tag_name@ }
    }
}

impl Clone for NodePtr {
    /// Another handle on the same node.
    fn clone(&self) -> (res: Self)
        ensures
            res@ == self@,
    {
        let tag_name = self.tag_name.clone();
        assert(tag_name@ == self.tag_name@);
        NodePtr { id: self.id, tag_name }
    }
}

impl NodePtr {
    /// A handle on the node `id`, an element named `tag_name`.
    pub fn new(id: usize, tag_name: &[u8]) -> (res: Self)
        ensures
            res@ == (NodeView { id, tag_name: tag_name@ }),
    {
        let mut name: Vec<u8> = Vec::new();
        let mut i: usize = 0;
        while i < tag_name.len()
            invariant
                i <= tag_name@.len(),
                name@ == tag_name@.subrange(0, i as int),
            decreases tag_name@.len() - i,
        {
            name.push(tag_name[i]);
            i += 1;
            assert(name@ == tag_name@.subrange(0, i as int));
        }
        assert(tag_name@.subrange(0, tag_name@.len() as int) == tag_name@);
        NodePtr { id, tag_name: name }
    }

    /// Whether two handles point at the same node.
    pub fn ptr_eq(&self, other: &NodePtr) -> (res: bool)
        ensures
            res == (self.id == other.id),
    {
        self.id == other.id
    }

    /// The element's tag name as bytes.
    pub fn tag_name_as_bytes(&self) -> (res: &[u8])
        ensures
            res@ == self.tag_name@,
    {
        self.tag_name.as_slice()
    }
}

} // verus!
