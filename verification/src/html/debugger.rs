//! The nesting of a document for display: a depth-first list of nodes, each
//! with its depth, becomes a tree in which every node holds its children.

use vstd::prelude::*;

verus! {

/// What is shown of a node.
#[derive(Debug, PartialEq)]
pub enum NodeItem {
    Document,
    Element { tag: String, attributes: Vec<(String, String)> },
    Text { data: String },
}

/// A node shown with its children; the root starts out showing nothing.
#[derive(Debug, PartialEq)]
pub struct DisplayNode {
    pub item: Option<NodeItem>,
    pub children: Vec<DisplayNode>,
}

pub enum ItemView {
    Document,
    Element { tag: Seq<char>, attributes: Seq<(Seq<char>, Seq<char>)> },
    Text { data: Seq<char> },
}

pub struct DisplayView {
    pub item: Option<ItemView>,
    pub children: Seq<DisplayView>,
}

pub open spec fn item_view(i: NodeItem) -> ItemView {
    match i {
        NodeItem::Document => ItemView::Document,
        NodeItem::Element { tag, attributes } => ItemView::Element {
            tag: tag@,
            attributes: attributes@.map_values(|a: (String, String)| (a.0@, a.1@)),
        },
        NodeItem::Text { data } => ItemView::Text { data: data@ },
    }
}

pub open spec fn node_view(n: DisplayNode) -> DisplayView
    decreases n,
{
    DisplayView {
        item: match n.item {
            Some(i) => Some(item_view(i)),
            None => None,
        },
        children: nodes_view(n.children@),
    }
}

pub open spec fn nodes_view(s: Seq<DisplayNode>) -> Seq<DisplayView>
    decreases s,
{
    if s.len() == 0 {
        Seq::empty()
    } else {
        nodes_view(s.subrange(0, s.len() - 1)).push(node_view(s[s.len() - 1]))
    }
}

proof fn lemma_nodes_view_push(s: Seq<DisplayNode>, n: DisplayNode)
    ensures
        nodes_view(s.push(n)) == nodes_view(s).push(node_view(n)),
{
    assert(s.push(n).subrange(0, s.len() as int) =~= s);
}

proof fn lemma_nodes_view_len(s: Seq<DisplayNode>)
    ensures
        nodes_view(s).len() == s.len(),
    decreases s.len(),
{
    if s.len() > 0 {
        lemma_nodes_view_len(s.subrange(0, s.len() - 1));
    }
}

/// A node showing `item`, with no children.
pub open spec fn leaf(item: ItemView) -> DisplayView {
    DisplayView { item: Some(item), children: Seq::empty() }
}

/// The tree with `item` added as the last child of the node reached by going
/// `depth - 1` times to the last child; nothing where a node on the way has
/// no child.
pub open spec fn add_at_depth(t: DisplayView, depth: nat, item: ItemView) -> Option<DisplayView>
    decreases depth,
{
    if depth <= 1 {
        Some(DisplayView { item: t.item, children: t.children.push(leaf(item)) })
    } else if t.children.len() == 0 {
        None
    } else {
        let last = t.children.len() - 1;
        match add_at_depth(t.children[last], (depth - 1) as nat, item) {
            Some(c) => Some(DisplayView { item: t.item, children: t.children.update(last, c) }),
            None => None,
        }
    }
}

/// The tree after the listed nodes, one after the other: a node at depth 0
/// becomes the whole tree, any other is added at its depth.
pub open spec fn tree_after(start: DisplayView, list: Seq<(nat, ItemView)>) -> Option<DisplayView>
    decreases list.len(),
{
    if list.len() == 0 {
        Some(start)
    } else {
        let (depth, item) = list[0];
        let next = if depth == 0 {
            Some(leaf(item))
        } else {
            add_at_depth(start, depth, item)
        };
        match next {
            Some(t) => tree_after(t, list.drop_first()),
            None => None,
        }
    }
}

/// The tree of a depth-first list of nodes, from a root that shows nothing.
pub open spec fn tree_of(list: Seq<(nat, ItemView)>) -> Option<DisplayView> {
    tree_after(DisplayView { item: None, children: Seq::empty() }, list)
}

/* what nesting keeps ------------------------------------------------------ */

/// The items of a tree read depth-first: a node's item, where it shows one,
/// then those of its children in order.
pub open spec fn items_depth_first(t: DisplayView) -> Seq<ItemView>
    decreases t,
{
    let own = match t.item {
        Some(i) => seq![i],
        None => Seq::empty(),
    };
    own + items_of_children(t.children)
}

pub open spec fn items_of_children(s: Seq<DisplayView>) -> Seq<ItemView>
    decreases s,
{
    if s.len() == 0 {
        Seq::empty()
    } else {
        items_of_children(s.subrange(0, s.len() - 1)) + items_depth_first(s[s.len() - 1])
    }
}

/// The items a list shows: those from its last entry at depth 0 on, or all
/// of them where none is at depth 0.
pub open spec fn items_shown(list: Seq<(nat, ItemView)>) -> Seq<ItemView>
    decreases list.len(),
{
    if list.len() == 0 {
        Seq::empty()
    } else if list.last().0 == 0 {
        seq![list.last().1]
    } else {
        items_shown(list.drop_last()).push(list.last().1)
    }
}

/// Adding an item at a depth puts it last in the depth-first order, and
/// leaves the other items as they were.
proof fn lemma_add_at_depth_appends(t: DisplayView, depth: nat, item: ItemView)
    ensures
        add_at_depth(t, depth, item) matches Some(t2) ==> items_depth_first(t2) == items_depth_first(t).push(item),
    decreases depth,
{
    let own = match t.item {
        Some(i) => seq![i],
        None => Seq::<ItemView>::empty(),
    };
    if depth <= 1 {
        let cs = t.children.push(leaf(item));
        assert(cs.subrange(0, cs.len() - 1) =~= t.children);
        assert(items_of_children(leaf(item).children) =~= Seq::<ItemView>::empty());
        assert(items_depth_first(leaf(item)) =~= seq![item]);
        assert(own + (items_of_children(t.children) + seq![item]) =~= (own + items_of_children(t.children)).push(
            item,
        ));
    } else if t.children.len() > 0 {
        let last = t.children.len() - 1;
        lemma_add_at_depth_appends(t.children[last], (depth - 1) as nat, item);
        if let Some(c) = add_at_depth(t.children[last], (depth - 1) as nat, item) {
            let cs = t.children.update(last, c);
            assert(cs.subrange(0, last) =~= t.children.subrange(0, last));
            let before = items_of_children(t.children.subrange(0, last));
            assert(own + (before + items_depth_first(t.children[last]).push(item)) =~= (own + (before
                + items_depth_first(t.children[last]))).push(item));
        }
    }
}

/// Placing one entry of the list.
spec fn place(t: DisplayView, e: (nat, ItemView)) -> Option<DisplayView> {
    if e.0 == 0 {
        Some(leaf(e.1))
    } else {
        add_at_depth(t, e.0, e.1)
    }
}

proof fn lemma_tree_after_push(start: DisplayView, list: Seq<(nat, ItemView)>, e: (nat, ItemView))
    ensures
        tree_after(start, list.push(e)) == match tree_after(start, list) {
            Some(t) => place(t, e),
            None => None,
        },
    decreases list.len(),
{
    if list.len() == 0 {
        assert(list.push(e).drop_first() =~= Seq::<(nat, ItemView)>::empty());
        if let Some(t) = place(start, e) {
            assert(tree_after(t, Seq::<(nat, ItemView)>::empty()) == Some(t));
        }
    } else {
        assert(list.push(e)[0] == list[0]);
        assert(list.push(e).drop_first() =~= list.drop_first().push(e));
        let (depth, item) = list[0];
        let next = if depth == 0 {
            Some(leaf(item))
        } else {
            add_at_depth(start, depth, item)
        };
        if let Some(t) = next {
            lemma_tree_after_push(t, list.drop_first(), e);
        }
    }
}

/// Nesting only places nodes: read depth-first, the tree of a list shows
/// exactly the items the list shows, each as it was given, in the list's
/// order (an entry at depth 0 starts the tree over).
pub proof fn law_nesting_keeps_items(list: Seq<(nat, ItemView)>)
    ensures
        tree_of(list) matches Some(t) ==> items_depth_first(t) == items_shown(list),
    decreases list.len(),
{
    let root = DisplayView { item: None, children: Seq::empty() };
    if list.len() == 0 {
        assert(items_depth_first(root) =~= Seq::<ItemView>::empty());
    } else {
        let init = list.drop_last();
        let e = list.last();
        assert(list =~= init.push(e));
        lemma_tree_after_push(root, init, e);
        law_nesting_keeps_items(init);
        if let Some(t) = tree_of(init) {
            if e.0 == 0 {
                assert(items_of_children(leaf(e.1).children) =~= Seq::<ItemView>::empty());
                assert(items_depth_first(leaf(e.1)) =~= seq![e.1]);
            } else {
                lemma_add_at_depth_appends(t, e.0, e.1);
            }
        }
    }
}

pub open spec fn list_view(list: Seq<(usize, NodeItem)>) -> Seq<(nat, ItemView)> {
    list.map_values(|p: (usize, NodeItem)| (p.0 as nat, item_view(p.1)))
}

fn add_at(tree: &mut DisplayNode, depth: usize, item: NodeItem)
    requires
        add_at_depth(node_view(*old(tree)), depth as nat, item_view(item)) is Some,
    ensures
        node_view(*final(tree)) == add_at_depth(node_view(*old(tree)), depth as nat, item_view(item))->0,
    decreases depth,
{
    if depth <= 1 {
        let leaf_node = DisplayNode { item: Some(item), children: Vec::new() };
        proof {
            lemma_nodes_view_push(tree.children@, leaf_node);
            assert(nodes_view(Seq::<DisplayNode>::empty()) =~= Seq::empty());
        }
        tree.children.push(leaf_node);
    } else {
        proof {
            lemma_nodes_view_len(tree.children@);
        }
        let mut last = tree.children.pop().unwrap();
        let ghost before = old(tree).children@;
        proof {
            assert(before =~= tree.children@.push(last));
            lemma_nodes_view_push(tree.children@, last);
        }
        add_at(&mut last, depth - 1, item);
        proof {
            lemma_nodes_view_push(tree.children@, last);
            assert(nodes_view(tree.children@.push(last)) =~= nodes_view(before).update(
                before.len() - 1,
                node_view(last),
            ));
        }
        tree.children.push(last);
    }
}

/// Nests a depth-first list of nodes: a node at depth 0 becomes the whole
/// tree; any other becomes the last child of the node reached from the root
/// by going `depth - 1` times to the last child. The list must give such a
/// node for every entry.
pub fn dom_list_to_recursive_json(list: Vec<(usize, NodeItem)>) -> (res: DisplayNode)
    requires
        tree_of(list_view(list@)) is Some,
    ensures
        node_view(res) == tree_of(list_view(list@))->0,
{
    let mut tree = DisplayNode { item: None, children: Vec::new() };
    let ghost whole = list_view(list@);
    let mut rest = list;
    assert(node_view(tree) =~= (DisplayView { item: None, children: Seq::empty() }));
    assert(list_view(rest@) == whole);
    while rest.len() > 0
        invariant
            tree_after(node_view(tree), list_view(rest@)) == tree_of(whole),
            tree_of(whole) is Some,
        decreases rest@.len(),
    {
        let ghost before = rest@;
        let (depth, item) = rest.remove(0);
        proof {
            assert(list_view(before)[0] == (depth as nat, item_view(item)));
            assert(list_view(before).drop_first() =~= list_view(rest@));
        }
        if depth == 0 {
            tree = DisplayNode { item: Some(item), children: Vec::new() };
            assert(nodes_view(Seq::<DisplayNode>::empty()) =~= Seq::empty());
            assert(node_view(tree) =~= leaf(list_view(before)[0].1));
        } else {
            add_at(&mut tree, depth, item);
        }
    }
    assert(list_view(rest@) =~= Seq::<(nat, ItemView)>::empty());
    tree
}

} // verus!
