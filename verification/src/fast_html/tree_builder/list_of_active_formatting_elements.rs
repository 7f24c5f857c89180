//! The list of active formatting elements: the formatting elements the tree
//! builder may have to reopen, separated by markers.

use vstd::prelude::*;
use vstd::string::StringSliceAdditionalSpecFns;
use ecow::EcoVec;
use crate::eco::{entries_get, entries_len, entries_new, entries_push, entries_remove, entry_list};
use crate::fast_html::tokenizer::bytes_equal;
use super::node::{NodePtr, NodeView};

verus! {

/// An entry of the list: a marker, or a formatting element.
#[derive(Debug)]
pub enum Entry {
    Marker,
    Element(NodePtr),
}

/// What an entry holds.
pub enum EntryView {
    Marker,
    Element(NodeView),
}

impl View for Entry {
    type V = EntryView;

    open spec fn view(&self) -> EntryView {
        match self {
            Entry::Marker => EntryView::Marker,
            Entry::Element(n) => EntryView::Element(n@),
        }
    }
}

impl Clone for Entry {
    /// The same entry.
    fn clone(&self) -> (res: Self)
        ensures
            res@ == self@,
    {
        match self {
            Entry::Marker => Entry::Marker,
            Entry::Element(n) => Entry::Element(n.clone()),
        }
    }
}

/// The list of active formatting elements.
#[derive(Debug)]
pub struct ListOfActiveFormattingElements {
    entries: EcoVec<Entry>,
}

/// Whether an entry is the element node `id`.
pub open spec fn is_entry_of(e: EntryView, id: usize) -> bool {
    match e {
        EntryView::Marker => false,
        EntryView::Element(n) => n.id == id,
    }
}

/// Whether an entry is an element named `name`.
pub open spec fn is_entry_named(e: EntryView, name: Seq<u8>) -> bool {
    match e {
        EntryView::Marker => false,
        EntryView::Element(n) => n.tag_name == name,
    }
}

/// The index of the last entry that is the element node `id`, if any.
pub open spec fn last_index_of_node(s: Seq<EntryView>, id: usize) -> Option<int>
    decreases s.len(),
{
    if s.len() == 0 {
        None
    } else if is_entry_of(s.last(), id) {
        Some(s.len() - 1)
    } else {
        last_index_of_node(s.drop_last(), id)
    }
}

/// The index of the last entry that is an element named `name`, if any.
pub open spec fn last_index_named(s: Seq<EntryView>, name: Seq<u8>) -> Option<int>
    decreases s.len(),
{
    if s.len() == 0 {
        None
    } else if is_entry_named(s.last(), name) {
        Some(s.len() - 1)
    } else {
        last_index_named(s.drop_last(), name)
    }
}

/// `last_index_of_node` finds an entry of the node, and none after it; it
/// finds nothing exactly when no entry is the node.
pub proof fn lemma_last_index_of_node(s: Seq<EntryView>, id: usize)
    ensures
        last_index_of_node(s, id) matches Some(i) ==> 0 <= i < s.len() && is_entry_of(s[i], id)
            && forall|j: int| i < j < s.len() ==> !is_entry_of(#[trigger] s[j], id),
        last_index_of_node(s, id) is None <==> forall|j: int| 0 <= j < s.len() ==> !is_entry_of(#[trigger] s[j], id),
    decreases s.len(),
{
    if s.len() > 0 {
        lemma_last_index_of_node(s.drop_last(), id);
        if !is_entry_of(s.last(), id) {
            assert forall|j: int| 0 <= j < s.len() - 1 implies s.drop_last()[j] == s[j] by {}
        }
    }
}

impl View for ListOfActiveFormattingElements {
    type V = Seq<EntryView>;

    closed spec fn view(&self) -> Seq<EntryView> {
        entry_list(self.entries)
    }
}

impl ListOfActiveFormattingElements {
    /// An empty list.
    pub fn new() -> (res: Self)
        ensures
            res@ == Seq::<EntryView>::empty(),
    {
        Self { entries: entries_new() }
    }

    /// Appends an entry (the vector's own `push`, which the list hands out).
    pub fn push(&mut self, entry: Entry)
        ensures
            final(self)@ == old(self)@.push(entry@),
    {
        entries_push(&mut self.entries, entry)
    }

    /// The number of entries (the vector's own `len`).
    pub fn len(&self) -> (res: usize)
        ensures
            res == self@.len(),
    {
        entries_len(&self.entries)
    }

    /// The last element entry named `tag_name`, markers passed over, if any.
    pub fn get_element_after_last_marker(&self, tag_name: &str) -> (res: Option<NodePtr>)
        ensures
            match last_index_named(self@, tag_name.spec_bytes()) {
                Some(i) => (res matches Some(n) && self@[i] == EntryView::Element(n@)),
                None => res is None,
            },
    {
        let name = tag_name.as_bytes();
        let mut i = entries_len(&self.entries);
        assert(self@.subrange(0, i as int) =~= self@);
        while i > 0
            invariant
                i <= self@.len(),
                name@ == tag_name.spec_bytes(),
                last_index_named(self@, name@) == last_index_named(self@.subrange(0, i as int), name@),
            decreases i,
        {
            let k = i - 1;
            let ghost sub = self@.subrange(0, i as int);
            assert(sub.drop_last() == self@.subrange(0, k as int));
            assert(sub.last() == self@[k as int]);
            match entries_get(&self.entries, k) {
                Entry::Marker => {},
                Entry::Element(node) => {
                    if bytes_equal(node.tag_name_as_bytes(), name) {
                        return Some(node.clone());
                    }
                },
            }
            i = k;
        }
        None
    }

    /// The index of the last entry that is `node`, if any.
    pub fn get_index_of_node(&self, node: &NodePtr) -> (res: Option<usize>)
        ensures
            res matches Some(k) ==> last_index_of_node(self@, node.id) == Some(k as int),
            res is None ==> last_index_of_node(self@, node.id) is None,
    {
        self.rposition_of(node)
    }

    /// The index of the last entry that is `node`, if any.
    fn rposition_of(&self, node: &NodePtr) -> (res: Option<usize>)
        ensures
            res matches Some(k) ==> last_index_of_node(self@, node.id) == Some(k as int),
            res is None ==> last_index_of_node(self@, node.id) is None,
    {
        let mut i = entries_len(&self.entries);
        assert(self@.subrange(0, i as int) =~= self@);
        while i > 0
            invariant
                i <= self@.len(),
                last_index_of_node(self@, node.id) == last_index_of_node(self@.subrange(0, i as int), node.id),
            decreases i,
        {
            let k = i - 1;
            let ghost sub = self@.subrange(0, i as int);
            assert(sub.drop_last() == self@.subrange(0, k as int));
            assert(sub.last() == self@[k as int]);
            match entries_get(&self.entries, k) {
                Entry::Marker => {},
                Entry::Element(e) => {
                    if e.ptr_eq(node) {
                        return Some(k);
                    }
                },
            }
            i = k;
        }
        None
    }

    /// Removes the last entry that is `element`, which the list must hold.
    pub fn remove_element(&mut self, element: &NodePtr)
        requires
            last_index_of_node(old(self)@, element.id) is Some,
        ensures
            final(self)@ == old(self)@.remove(last_index_of_node(old(self)@, element.id)->0),
    {
        proof {
            lemma_last_index_of_node(self@, element.id);
        }
        match self.rposition_of(element) {
            Some(index) => {
                entries_remove(&mut self.entries, index);
            },
            None => {},
        }
    }

    /// Whether an entry is `node`.
    pub fn contains_node(&self, node: &NodePtr) -> (res: bool)
        ensures
            res == exists|i: int| 0 <= i < self@.len() && is_entry_of(#[trigger] self@[i], node.id),
    {
        proof {
            lemma_last_index_of_node(self@, node.id);
        }
        self.rposition_of(node).is_some()
    }

    /// Appends a marker.
    pub fn add_marker(&mut self)
        ensures
            final(self)@ == old(self)@.push(EntryView::Marker),
    {
        entries_push(&mut self.entries, Entry::Marker)
    }
}

} // verus!
