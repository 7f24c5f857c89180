//! The list of active formatting elements: the formatting elements the tree
//! builder may have to reopen, separated by markers.

use vstd::prelude::*;
use super::node::{NodePtr, NodeView};

verus! {

/// An entry of the list: a marker, or a formatting element.
#[derive(Debug)]
pub enum Entry {
    Marker,
    Element(NodePtr),
}

/// What an entry holds.
pub enum EntryView {
    Marker,
    Element(NodeView),
}

impl View for Entry {
    type V = EntryView;

    open spec fn view(&self) -> EntryView {
        match self {
            Entry::Marker => EntryView::Marker,
            Entry::Element(n) => EntryView::Element(n@),
        }
    }
}

/// The entries by their views.
pub open spec fn entry_views(s: Seq<Entry>) -> Seq<EntryView> {
    Seq::new(s.len(), |i: int| s[i]@)
}

/// The list of active formatting elements.
#[derive(Debug)]
pub struct ListOfActiveFormattingElements {
    entries: Vec<Entry>,
}

impl View for ListOfActiveFormattingElements {
    type V = Seq<EntryView>;

    closed spec fn view(&self) -> Seq<EntryView> {
        entry_views(self.entries@)
    }
}

impl ListOfActiveFormattingElements {
    /// An empty list.
    pub fn new() -> (res: Self)
        ensures
            res@ == Seq::<EntryView>::empty(),
    {
        let res = Self { entries: Vec::new() };
        assert(entry_views(res.entries@) =~= Seq::<EntryView>::empty());
        res
    }

    /// Appends an entry (the vector's own `push`, which the list hands out).
    pub fn push(&mut self, entry: Entry)
        ensures
            final(self)@ == old(self)@.push(entry@),
    {
        let ghost before = self.entries@;
        let ghost e = entry@;
        self.entries.push(entry);
        assert(entry_views(self.entries@) =~= entry_views(before).push(e));
    }

    /// The number of entries (the vector's own `len`).
    pub fn len(&self) -> (res: usize)
        ensures
            res == self@.len(),
    {
        self.entries.len()
    }
}

} // verus!
