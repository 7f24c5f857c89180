//! The stack of open elements, with the scope queries and the pops the tree
//! builder makes on it.

use vstd::prelude::*;
use vstd::string::StringSliceAdditionalSpecFns;
use ecow::EcoVec;
use crate::eco::{
    name_list, names_from, names_get, names_len, names_push, node_list, nodes_get, nodes_len,
    nodes_new, nodes_pop, nodes_push, nodes_remove,
};
use crate::fast_html::tokenizer::bytes_equal;
use super::node::{NodePtr, NodeView};

verus! {

/// The stack of open elements; the last element is the current node.
#[derive(Debug)]
pub struct StackOfOpenElements(pub EcoVec<NodePtr>);

impl View for StackOfOpenElements {
    type V = Seq<NodeView>;

    open spec fn view(&self) -> Seq<NodeView> {
        node_list(self.0)
    }
}

/* model -------------------------------------- */

/// The names that bound every scope.
pub open spec fn scope_base_names() -> Seq<Seq<u8>> {
    seq![
        "applet".spec_bytes(),
        "caption".spec_bytes(),
        "html".spec_bytes(),
        "table".spec_bytes(),
        "td".spec_bytes(),
        "th".spec_bytes(),
        "marquee".spec_bytes(),
        "object".spec_bytes(),
        "template".spec_bytes(),
    ]
}

/// The bounds of the button scope.
pub open spec fn button_scope_names() -> Seq<Seq<u8>> {
    scope_base_names().push("button".spec_bytes())
}

/// The bounds of the list item scope.
pub open spec fn list_item_scope_names() -> Seq<Seq<u8>> {
    scope_base_names().push("ol".spec_bytes()).push("ul".spec_bytes())
}

/// The bounds of the table scope, as the tree builder lists them.
pub open spec fn table_scope_names() -> Seq<Seq<u8>> {
    scope_base_names().push("html".spec_bytes()).push("table".spec_bytes()).push(
        "template".spec_bytes(),
    )
}

/// Byte strings by their bytes.
pub open spec fn names_of(names: Seq<&[u8]>) -> Seq<Seq<u8>> {
    names.map_values(|s: &[u8]| s@)
}

/// Picks the node `id`.
pub open spec fn is_node(id: usize) -> spec_fn(NodeView) -> bool {
    |n: NodeView| n.id == id
}

/// Picks the elements named `name`.
pub open spec fn is_named(name: Seq<u8>) -> spec_fn(NodeView) -> bool {
    |n: NodeView| n.tag_name == name
}

/// Picks the elements whose name is one of `names`.
pub open spec fn is_named_oneof(names: Seq<Seq<u8>>) -> spec_fn(NodeView) -> bool {
    |n: NodeView| names.contains(n.tag_name)
}

/// Whether, walking down the stack from the current node, an element that
/// `is_target` picks comes before any element whose name is in `list`.
pub open spec fn in_scope(
    s: Seq<NodeView>,
    is_target: spec_fn(NodeView) -> bool,
    list: Seq<Seq<u8>>,
) -> bool
    decreases s.len(),
{
    if s.len() == 0 {
        false
    } else if is_target(s.last()) {
        true
    } else if list.contains(s.last().tag_name) {
        false
    } else {
        in_scope(s.drop_last(), is_target, list)
    }
}

/// The stack after popping elements until one that `stop` picks has been
/// popped, or until the stack is empty.
pub open spec fn popped_through(s: Seq<NodeView>, stop: spec_fn(NodeView) -> bool) -> Seq<NodeView>
    decreases s.len(),
{
    if s.len() == 0 {
        s
    } else if stop(s.last()) {
        s.drop_last()
    } else {
        popped_through(s.drop_last(), stop)
    }
}

/// The stack after popping elements while the current node's name is not in
/// `names`.
pub open spec fn popped_while_not_in(s: Seq<NodeView>, names: Seq<Seq<u8>>) -> Seq<NodeView>
    decreases s.len(),
{
    if s.len() == 0 {
        s
    } else if names.contains(s.last().tag_name) {
        s
    } else {
        popped_while_not_in(s.drop_last(), names)
    }
}

/// Whether `test` may answer `r` for a handle on the node `v` describes.
pub open spec fn answers<F: Fn(&NodePtr) -> bool>(test: F, v: NodeView, r: bool) -> bool {
    exists|n: NodePtr| n@ == v && #[trigger] call_ensures(test, (&n,), r)
}

/// `after` is `before` after the walk of `remove_first_matching_node` stopped
/// after `k` nodes from the top: `test` answered `false` for each of them, and
/// then either answered `true` for the next one, whose distance from the top
/// is the index removed, or there was none left and nothing changed.
pub open spec fn removed_first_match<F: Fn(&NodePtr) -> bool>(
    test: F,
    before: Seq<NodeView>,
    after: Seq<NodeView>,
    k: int,
) -> bool {
    &&& 0 <= k <= before.len()
    &&& forall|j: int| 0 <= j < k ==> answers(test, #[trigger] before[before.len() - 1 - j], false)
    &&& k < before.len() ==> answers(test, before[before.len() - 1 - k], true) && after == before.remove(k)
    &&& k == before.len() ==> after == before
}

/* helpers ------------------------------------ */

/// The nine names that bound every scope.
fn scope_base_list() -> (res: [&'static [u8]; 9])
    ensures
        names_of(res@) == scope_base_names(),
{
    let res: [&'static [u8]; 9] = [
        "applet".as_bytes(),
        "caption".as_bytes(),
        "html".as_bytes(),
        "table".as_bytes(),
        "td".as_bytes(),
        "th".as_bytes(),
        "marquee".as_bytes(),
        "object".as_bytes(),
        "template".as_bytes(),
    ];
    assert(names_of(res@) =~= scope_base_names());
    res
}

/// Whether `name` is one of the byte strings in `list`.
fn list_contains(list: &EcoVec<&[u8]>, name: &[u8]) -> (res: bool)
    ensures
        res == name_list(*list).contains(name@),
{
    let n = names_len(list);
    let mut i: usize = 0;
    while i < n
        invariant
            n == name_list(*list).len(),
            i <= n,
            forall|j: int| 0 <= j < i ==> name_list(*list)[j] != name@,
        decreases n - i,
    {
        if bytes_equal(names_get(list, i), name) {
            assert(name_list(*list)[i as int] == name@);
            return true;
        }
        i += 1;
    }
    false
}

/// Whether `name` is one of `names`.
fn slice_contains(names: &[&[u8]], name: &[u8]) -> (res: bool)
    ensures
        res == names_of(names@).contains(name@),
{
    let mut i: usize = 0;
    while i < names.len()
        invariant
            i <= names@.len(),
            forall|j: int| 0 <= j < i ==> names_of(names@)[j] != name@,
        decreases names@.len() - i,
    {
        if bytes_equal(names[i], name) {
            assert(names_of(names@)[i as int] == name@);
            return true;
        }
        i += 1;
    }
    false
}

/* laws --------------------------------------- */

/// An element in scope is open: whatever `is_target` finds in scope is on the
/// stack.
pub proof fn law_in_scope_is_open(s: Seq<NodeView>, is_target: spec_fn(NodeView) -> bool, list: Seq<Seq<u8>>)
    requires
        in_scope(s, is_target, list),
    ensures
        exists|i: int| 0 <= i < s.len() && is_target(#[trigger] s[i]),
    decreases s.len(),
{
    if !is_target(s.last()) {
        law_in_scope_is_open(s.drop_last(), is_target, list);
        let i = choose|i: int| 0 <= i < s.len() - 1 && is_target(#[trigger] s.drop_last()[i]);
        assert(s[i] == s.drop_last()[i]);
    } else {
        assert(is_target(s[s.len() - 1]));
    }
}

/// More bounds make a narrower scope: what is in scope for the longer list
/// `wide` of bounds is in scope for the list `narrow` whose names it all holds.
pub proof fn law_wider_bounds_narrow_scope(
    s: Seq<NodeView>,
    is_target: spec_fn(NodeView) -> bool,
    narrow: Seq<Seq<u8>>,
    wide: Seq<Seq<u8>>,
)
    requires
        forall|i: int| 0 <= i < narrow.len() ==> wide.contains(#[trigger] narrow[i]),
        in_scope(s, is_target, wide),
    ensures
        in_scope(s, is_target, narrow),
    decreases s.len(),
{
    if !is_target(s.last()) {
        if narrow.contains(s.last().tag_name) {
            let i = choose|i: int| 0 <= i < narrow.len() && narrow[i] == s.last().tag_name;
            assert(wide.contains(narrow[i]));
        }
        law_wider_bounds_narrow_scope(s.drop_last(), is_target, narrow, wide);
    }
}

/// An element in button scope or in list item scope is in scope.
pub proof fn law_button_and_list_item_scope_within_scope(s: Seq<NodeView>, name: Seq<u8>)
    ensures
        in_scope(s, is_named(name), button_scope_names()) ==> in_scope(s, is_named(name), scope_base_names()),
        in_scope(s, is_named(name), list_item_scope_names()) ==> in_scope(s, is_named(name), scope_base_names()),
{
    assert forall|i: int| 0 <= i < scope_base_names().len() implies button_scope_names().contains(
        #[trigger] scope_base_names()[i],
    ) by {
        assert(button_scope_names()[i] == scope_base_names()[i]);
    }
    assert forall|i: int| 0 <= i < scope_base_names().len() implies list_item_scope_names().contains(
        #[trigger] scope_base_names()[i],
    ) by {
        assert(list_item_scope_names()[i] == scope_base_names()[i]);
    }
    if in_scope(s, is_named(name), button_scope_names()) {
        law_wider_bounds_narrow_scope(s, is_named(name), scope_base_names(), button_scope_names());
    }
    if in_scope(s, is_named(name), list_item_scope_names()) {
        law_wider_bounds_narrow_scope(s, is_named(name), scope_base_names(), list_item_scope_names());
    }
}

/// A `button` element above the topmost element named `name` takes that
/// name out of button scope.
pub proof fn law_button_above_leaves_button_scope(s: Seq<NodeView>, name: Seq<u8>, k: int)
    requires
        0 <= k < s.len(),
        s[k].tag_name == "button".spec_bytes(),
        forall|j: int| k <= j < s.len() ==> (#[trigger] s[j]).tag_name != name,
    ensures
        !in_scope(s, is_named(name), button_scope_names()),
    decreases s.len(),
{
    let last = s.last();
    assert(s[s.len() - 1] == last);
    if k == s.len() - 1 {
        assert(button_scope_names()[9] == "button".spec_bytes());
        assert(button_scope_names().contains(last.tag_name));
    } else if !button_scope_names().contains(last.tag_name) {
        let t = s.drop_last();
        assert forall|j: int| k <= j < t.len() implies (#[trigger] t[j]).tag_name != name by {
            assert(t[j] == s[j]);
        }
        assert(t[k] == s[k]);
        law_button_above_leaves_button_scope(t, name, k);
    }
}

/// The table scope, as the tree builder lists its bounds, is the scope: the
/// names it adds bound every scope already.
pub proof fn law_table_scope_is_scope(s: Seq<NodeView>, is_target: spec_fn(NodeView) -> bool)
    ensures
        in_scope(s, is_target, table_scope_names()) == in_scope(s, is_target, scope_base_names()),
{
    let base = scope_base_names();
    let table = table_scope_names();
    assert forall|i: int| 0 <= i < base.len() implies table.contains(#[trigger] base[i]) by {
        assert(table[i] == base[i]);
    }
    assert forall|i: int| 0 <= i < table.len() implies base.contains(#[trigger] table[i]) by {
        if i == 9 {
            assert(base[2] == table[i]);
        } else if i == 10 {
            assert(base[3] == table[i]);
        } else if i == 11 {
            assert(base[8] == table[i]);
        } else {
            assert(base[i] == table[i]);
        }
    }
    if in_scope(s, is_target, table) {
        law_wider_bounds_narrow_scope(s, is_target, base, table);
    }
    if in_scope(s, is_target, base) {
        law_wider_bounds_narrow_scope(s, is_target, table, base);
    }
}

/// `k` is where popping through `stop` cuts the stack: the topmost element
/// that `stop` picks sits at `k`, or there is none and `k` is 0.
pub open spec fn cut_through(s: Seq<NodeView>, stop: spec_fn(NodeView) -> bool, k: int) -> bool {
    &&& 0 <= k <= s.len()
    &&& forall|j: int| k < j < s.len() ==> !stop(#[trigger] s[j])
    &&& (k < s.len() && stop(s[k])) || (k == 0 && forall|j: int| 0 <= j < s.len() ==> !stop(#[trigger] s[j]))
}

/// Popping through an element pops exactly down to the topmost element that
/// `stop` picks, that one included, or empties the stack where there is none.
pub proof fn law_popped_through(s: Seq<NodeView>, stop: spec_fn(NodeView) -> bool)
    ensures
        exists|k: int| #[trigger] cut_through(s, stop, k) && popped_through(s, stop) == s.subrange(0, k),
    decreases s.len(),
{
    if s.len() == 0 {
        assert(cut_through(s, stop, 0) && popped_through(s, stop) == s.subrange(0, 0));
    } else if stop(s.last()) {
        let k = s.len() - 1;
        assert(cut_through(s, stop, k) && popped_through(s, stop) == s.subrange(0, k));
    } else {
        law_popped_through(s.drop_last(), stop);
        let t = s.drop_last();
        let k = choose|k: int| #[trigger] cut_through(t, stop, k) && popped_through(t, stop) == t.subrange(0, k);
        assert forall|j: int| k < j < s.len() implies !stop(#[trigger] s[j]) by {
            if j < s.len() - 1 {
                assert(s[j] == t[j]);
            }
        }
        if k < t.len() && stop(t[k]) {
            assert(s[k] == t[k]);
        } else {
            assert forall|j: int| 0 <= j < s.len() implies !stop(#[trigger] s[j]) by {
                if j < s.len() - 1 {
                    assert(s[j] == t[j]);
                }
            }
        }
        assert(cut_through(s, stop, k));
        assert(popped_through(s, stop) == s.subrange(0, k));
    }
}

/// Popping while the current node is named none of `names` leaves a prefix
/// of the stack that is empty or ends with an element named one of `names`,
/// and pops only elements named none of them.
pub proof fn law_popped_while_not_in(s: Seq<NodeView>, names: Seq<Seq<u8>>)
    ensures
        exists|k: int|
            0 <= k <= s.len() && popped_while_not_in(s, names) == s.subrange(0, k) && (k > 0 ==> names.contains(
                s[k - 1].tag_name,
            )) && (forall|j: int| k <= j < s.len() ==> !names.contains((#[trigger] s[j]).tag_name)),
    decreases s.len(),
{
    if s.len() == 0 {
        assert(popped_while_not_in(s, names) == s.subrange(0, 0));
    } else if names.contains(s.last().tag_name) {
        assert(popped_while_not_in(s, names) == s.subrange(0, s.len() as int));
    } else {
        law_popped_while_not_in(s.drop_last(), names);
        let t = s.drop_last();
        let k = choose|k: int|
            0 <= k <= t.len() && popped_while_not_in(t, names) == t.subrange(0, k) && (k > 0 ==> names.contains(
                t[k - 1].tag_name,
            )) && (forall|j: int| k <= j < t.len() ==> !names.contains((#[trigger] t[j]).tag_name));
        assert(popped_while_not_in(s, names) == s.subrange(0, k));
        if k > 0 {
            assert(s[k - 1] == t[k - 1]);
        }
        assert forall|j: int| k <= j < s.len() implies !names.contains((#[trigger] s[j]).tag_name) by {
            if j < s.len() - 1 {
                assert(s[j] == t[j]);
            }
        }
    }
}

impl StackOfOpenElements {
    /// An empty stack.
    pub fn new() -> (res: Self)
        ensures
            res@ == Seq::<NodeView>::empty(),
    {
        Self(nodes_new())
    }

    /// Pushes a node (the vector's own `push`, which the stack hands out).
    pub fn push(&mut self, node: NodePtr)
        ensures
            final(self)@ == old(self)@.push(node@),
    {
        nodes_push(&mut self.0, node)
    }

    /// Pops the current node, if any (the vector's own `pop`).
    pub fn pop(&mut self) -> (res: Option<NodePtr>)
        ensures
            old(self)@.len() == 0 ==> res is None && final(self)@ == old(self)@,
            old(self)@.len() > 0 ==> (res matches Some(n) && n@ == old(self)@.last()
                && final(self)@ == old(self)@.drop_last()),
    {
        nodes_pop(&mut self.0)
    }

    /* getter ------------------------------------- */

    /// The node at `index`, counted from the bottom.
    pub fn get(&self, index: usize) -> (res: NodePtr)
        requires
            index < self@.len(),
        ensures
            res@ == self@[index as int],
    {
        nodes_get(&self.0, index).clone()
    }

    /// The current node, if the stack is not empty.
    pub fn current_node(&self) -> (res: Option<NodePtr>)
        ensures
            self@.len() == 0 ==> res is None,
            self@.len() > 0 ==> (res matches Some(n) && n@ == self@.last()),
    {
        let n = nodes_len(&self.0);
        if n > 0 {
            return Some(nodes_get(&self.0, n - 1).clone());
        }
        None
    }

    /// The number of open elements.
    pub fn len(&self) -> (res: usize)
        ensures
            res == self@.len(),
    {
        nodes_len(&self.0)
    }

    /* predicate ---------------------------------- */

    /// Whether `test` holds of some open element, trying them from the bottom.
    pub fn any<F>(&self, test: F) -> (res: bool)
        where
            F: Fn(&NodePtr) -> bool,
        requires
            forall|n: &NodePtr| call_requires(test, (n,)),
        ensures
            res ==> exists|i: int| 0 <= i < self@.len() && answers(test, #[trigger] self@[i], true),
            !res ==> forall|i: int| 0 <= i < self@.len() ==> answers(test, #[trigger] self@[i], false),
    {
        let n = nodes_len(&self.0);
        let mut i: usize = 0;
        while i < n
            invariant
                n == self@.len(),
                i <= n,
                forall|n: &NodePtr| call_requires(test, (n,)),
                forall|j: int| 0 <= j < i ==> answers(test, #[trigger] self@[j], false),
            decreases n - i,
        {
            let node = nodes_get(&self.0, i);
            let r = test(node);
            assert(call_ensures(test, (node,), r));
            assert(answers(test, self@[i as int], r));
            if r {
                return true;
            }
            i += 1;
        }
        false
    }

    /// Whether an open element is named `tag_name`.
    pub fn contains(&self, tag_name: &[u8]) -> (res: bool)
        ensures
            res == exists|i: int| 0 <= i < self@.len() && (#[trigger] self@[i]).tag_name == tag_name@,
    {
        let n = nodes_len(&self.0);
        let mut i: usize = 0;
        while i < n
            invariant
                n == self@.len(),
                i <= n,
                forall|j: int| 0 <= j < i ==> (#[trigger] self@[j]).tag_name != tag_name@,
            decreases n - i,
        {
            if bytes_equal(nodes_get(&self.0, i).tag_name_as_bytes(), tag_name) {
                assert(self@[i as int].tag_name == tag_name@);
                return true;
            }
            i += 1;
        }
        false
    }

    /// Whether an open element is named one of `tag_names`.
    pub fn contains_in(&self, tag_names: &[&[u8]]) -> (res: bool)
        ensures
            res == exists|i: int|
                0 <= i < self@.len() && names_of(tag_names@).contains((#[trigger] self@[i]).tag_name),
    {
        let n = nodes_len(&self.0);
        let mut i: usize = 0;
        while i < n
            invariant
                n == self@.len(),
                i <= n,
                forall|j: int| 0 <= j < i ==> !names_of(tag_names@).contains((#[trigger] self@[j]).tag_name),
            decreases n - i,
        {
            if slice_contains(tag_names, nodes_get(&self.0, i).tag_name_as_bytes()) {
                assert(names_of(tag_names@).contains(self@[i as int].tag_name));
                return true;
            }
            i += 1;
        }
        false
    }

    /// Whether an open element is named none of `tag_names`.
    pub fn contains_not_in(&self, tag_names: &[&[u8]]) -> (res: bool)
        ensures
            res == exists|i: int|
                0 <= i < self@.len() && !names_of(tag_names@).contains((#[trigger] self@[i]).tag_name),
    {
        let n = nodes_len(&self.0);
        let mut i: usize = 0;
        while i < n
            invariant
                n == self@.len(),
                i <= n,
                forall|j: int| 0 <= j < i ==> names_of(tag_names@).contains((#[trigger] self@[j]).tag_name),
            decreases n - i,
        {
            if !slice_contains(tag_names, nodes_get(&self.0, i).tag_name_as_bytes()) {
                assert(!names_of(tag_names@).contains(self@[i as int].tag_name));
                return true;
            }
            i += 1;
        }
        false
    }

    /// Whether `node` is open.
    pub fn contains_node(&self, node: &NodePtr) -> (res: bool)
        ensures
            res == exists|i: int| 0 <= i < self@.len() && (#[trigger] self@[i]).id == node.id,
    {
        let n = nodes_len(&self.0);
        let mut i: usize = 0;
        while i < n
            invariant
                n == self@.len(),
                i <= n,
                forall|j: int| 0 <= j < i ==> (#[trigger] self@[j]).id != node.id,
            decreases n - i,
        {
            if nodes_get(&self.0, i).ptr_eq(node) {
                assert(self@[i as int].id == node.id);
                return true;
            }
            i += 1;
        }
        false
    }

    /* scope -------------------------------------- */

    /// Whether `target_node` is in the scope that the names in `list` bound.
    pub fn has_element_in_specific_scope(&self, target_node: &NodePtr, list: EcoVec<&[u8]>) -> (res: bool)
        ensures
            res == in_scope(self@, is_node(target_node.id), name_list(list)),
    {
        let mut i = nodes_len(&self.0);
        assert(self@.subrange(0, i as int) =~= self@);
        while i > 0
            invariant
                i <= self@.len(),
                in_scope(self@, is_node(target_node.id), name_list(list)) == in_scope(
                    self@.subrange(0, i as int),
                    is_node(target_node.id),
                    name_list(list),
                ),
            decreases i,
        {
            let k = i - 1;
            let ghost sub = self@.subrange(0, i as int);
            assert(sub.drop_last() == self@.subrange(0, k as int));
            assert(sub.last() == self@[k as int]);
            let node = nodes_get(&self.0, k);
            if node.ptr_eq(target_node) {
                return true;
            }
            if list_contains(&list, node.tag_name_as_bytes()) {
                return false;
            }
            i = k;
        }
        false
    }

    /// Whether an element named `tag_name` is in the scope that the names in
    /// `list` bound.
    pub fn has_element_name_in_specific_scope(&self, tag_name: &[u8], list: EcoVec<&[u8]>) -> (res: bool)
        ensures
            res == in_scope(self@, is_named(tag_name@), name_list(list)),
    {
        let mut i = nodes_len(&self.0);
        assert(self@.subrange(0, i as int) =~= self@);
        while i > 0
            invariant
                i <= self@.len(),
                in_scope(self@, is_named(tag_name@), name_list(list)) == in_scope(
                    self@.subrange(0, i as int),
                    is_named(tag_name@),
                    name_list(list),
                ),
            decreases i,
        {
            let k = i - 1;
            let ghost sub = self@.subrange(0, i as int);
            assert(sub.drop_last() == self@.subrange(0, k as int));
            assert(sub.last() == self@[k as int]);
            let name = nodes_get(&self.0, k).tag_name_as_bytes();
            if bytes_equal(name, tag_name) {
                return true;
            }
            if list_contains(&list, name) {
                return false;
            }
            i = k;
        }
        false
    }

    /// Whether an element named one of `tag_names` is in the scope that the
    /// names in `list` bound.
    pub fn has_oneof_element_names_in_specific_scope(
        &self,
        tag_names: &[&[u8]],
        list: EcoVec<&[u8]>,
    ) -> (res: bool)
        ensures
            res == in_scope(self@, is_named_oneof(names_of(tag_names@)), name_list(list)),
    {
        let mut i = nodes_len(&self.0);
        assert(self@.subrange(0, i as int) =~= self@);
        while i > 0
            invariant
                i <= self@.len(),
                in_scope(self@, is_named_oneof(names_of(tag_names@)), name_list(list)) == in_scope(
                    self@.subrange(0, i as int),
                    is_named_oneof(names_of(tag_names@)),
                    name_list(list),
                ),
            decreases i,
        {
            let k = i - 1;
            let ghost sub = self@.subrange(0, i as int);
            assert(sub.drop_last() == self@.subrange(0, k as int));
            assert(sub.last() == self@[k as int]);
            let name = nodes_get(&self.0, k).tag_name_as_bytes();
            if slice_contains(tag_names, name) {
                return true;
            }
            if list_contains(&list, name) {
                return false;
            }
            i = k;
        }
        false
    }

    /// Whether `target_node` is in scope.
    pub fn has_element_in_scope(&self, target_node: &NodePtr) -> (res: bool)
        ensures
            res == in_scope(self@, is_node(target_node.id), scope_base_names()),
    {
        self.has_element_in_specific_scope(target_node, names_from(scope_base_list()))
    }

    /// Whether an element named `tag_name` is in scope.
    pub fn has_element_name_in_scope(&self, tag_name: &[u8]) -> (res: bool)
        ensures
            res == in_scope(self@, is_named(tag_name@), scope_base_names()),
    {
        self.has_element_name_in_specific_scope(tag_name, names_from(scope_base_list()))
    }

    /// Whether none of `tag_names` names an element in scope.
    pub fn has_not_all_element_names_in_scope(&self, tag_names: &[&[u8]]) -> (res: bool)
        ensures
            res == forall|j: int|
                0 <= j < tag_names@.len() ==> !in_scope(
                    self@,
                    is_named(#[trigger] tag_names@[j]@),
                    scope_base_names(),
                ),
    {
        let mut i: usize = 0;
        while i < tag_names.len()
            invariant
                i <= tag_names@.len(),
                forall|j: int|
                    0 <= j < i ==> !in_scope(self@, is_named(#[trigger] tag_names@[j]@), scope_base_names()),
            decreases tag_names@.len() - i,
        {
            if self.has_element_name_in_scope(tag_names[i]) {
                return false;
            }
            i += 1;
        }
        true
    }

    /// Whether an element named `tag_name` is in button scope.
    pub fn has_element_name_in_button_scope(&self, tag_name: &[u8]) -> (res: bool)
        ensures
            res == in_scope(self@, is_named(tag_name@), button_scope_names()),
            res ==> in_scope(self@, is_named(tag_name@), scope_base_names()),
            forall|k: int|
                #![trigger self@[k]]
                0 <= k < self@.len() && self@[k].tag_name == "button".spec_bytes() && (forall|j: int|
                    k <= j < self@.len() ==> (#[trigger] self@[j]).tag_name != tag_name@) ==> !res,
    {
        proof {
            law_button_and_list_item_scope_within_scope(self@, tag_name@);
            assert forall|k: int|
                #![trigger self@[k]]
                0 <= k < self@.len() && self@[k].tag_name == "button".spec_bytes() && (forall|j: int|
                    k <= j < self@.len() ==> (#[trigger] self@[j]).tag_name != tag_name@) implies !in_scope(
                self@,
                is_named(tag_name@),
                button_scope_names(),
            ) by {
                law_button_above_leaves_button_scope(self@, tag_name@, k);
            }
        }
        let mut list = names_from(scope_base_list());
        names_push(&mut list, "button".as_bytes());
        self.has_element_name_in_specific_scope(tag_name, list)
    }

    /// Whether an element named `tag_name` is in list item scope.
    pub fn has_element_name_in_list_item_scope(&self, tag_name: &[u8]) -> (res: bool)
        ensures
            res == in_scope(self@, is_named(tag_name@), list_item_scope_names()),
    {
        let mut list = names_from(scope_base_list());
        names_push(&mut list, "ol".as_bytes());
        names_push(&mut list, "ul".as_bytes());
        self.has_element_name_in_specific_scope(tag_name, list)
    }

    /// Whether an element named `tag_name` is in table scope.
    pub fn has_element_name_in_table_scope(&self, tag_name: &[u8]) -> (res: bool)
        ensures
            res == in_scope(self@, is_named(tag_name@), table_scope_names()),
    {
        let mut list = names_from(scope_base_list());
        names_push(&mut list, "html".as_bytes());
        names_push(&mut list, "table".as_bytes());
        names_push(&mut list, "template".as_bytes());
        self.has_element_name_in_specific_scope(tag_name, list)
    }

    /// Whether an element named one of `tag_names` is in table scope.
    pub fn has_oneof_element_names_in_table_scope(&self, tag_names: &[&[u8]]) -> (res: bool)
        ensures
            res == in_scope(self@, is_named_oneof(names_of(tag_names@)), table_scope_names()),
    {
        let mut list = names_from(scope_base_list());
        names_push(&mut list, "html".as_bytes());
        names_push(&mut list, "table".as_bytes());
        names_push(&mut list, "template".as_bytes());
        self.has_oneof_element_names_in_specific_scope(tag_names, list)
    }

    /* pop ---------------------------------------- */

    /// Pops elements until an element named `tag_name` has been popped, or
    /// until the stack is empty.
    pub fn pop_until(&mut self, tag_name: &[u8])
        ensures
            final(self)@ == popped_through(old(self)@, is_named(tag_name@)),
    {
        loop
            invariant_except_break
                popped_through(old(self)@, is_named(tag_name@)) == popped_through(self@, is_named(tag_name@)),
            ensures
                self@ == popped_through(old(self)@, is_named(tag_name@)),
            decreases self@.len(),
        {
            let n = nodes_len(&self.0);
            if n == 0 {
                break;
            }
            let found = bytes_equal(nodes_get(&self.0, n - 1).tag_name_as_bytes(), tag_name);
            nodes_pop(&mut self.0);
            if found {
                break;
            }
        }
    }

    /// Pops elements until `index` of them are left.
    pub fn pop_before_index(&mut self, index: usize)
        ensures
            final(self)@ == if index < old(self)@.len() {
                old(self)@.subrange(0, index as int)
            } else {
                old(self)@
            },
    {
        assert(old(self)@.subrange(0, old(self)@.len() as int) =~= old(self)@);
        while nodes_len(&self.0) > index
            invariant
                self@.len() <= old(self)@.len(),
                self@ == old(self)@.subrange(0, self@.len() as int),
                index < old(self)@.len() ==> index <= self@.len(),
                index >= old(self)@.len() ==> self@ == old(self)@,
            decreases self@.len(),
        {
            nodes_pop(&mut self.0);
            assert(self@ =~= old(self)@.subrange(0, self@.len() as int));
        }
    }

    /// Pops elements until an element named one of `tag_names` has been
    /// popped, or until the stack is empty.
    pub fn pop_until_some_in(&mut self, tag_names: &[&[u8]])
        ensures
            final(self)@ == popped_through(old(self)@, is_named_oneof(names_of(tag_names@))),
    {
        loop
            invariant_except_break
                popped_through(old(self)@, is_named_oneof(names_of(tag_names@))) == popped_through(
                    self@,
                    is_named_oneof(names_of(tag_names@)),
                ),
            ensures
                self@ == popped_through(old(self)@, is_named_oneof(names_of(tag_names@))),
            decreases self@.len(),
        {
            let n = nodes_len(&self.0);
            if n == 0 {
                break;
            }
            let found = slice_contains(tag_names, nodes_get(&self.0, n - 1).tag_name_as_bytes());
            nodes_pop(&mut self.0);
            if found {
                break;
            }
        }
    }

    /// Pops elements while the current node is named none of `tag_names`.
    pub fn pop_while_not_in(&mut self, tag_names: &[&[u8]])
        ensures
            final(self)@ == popped_while_not_in(old(self)@, names_of(tag_names@)),
    {
        loop
            invariant_except_break
                popped_while_not_in(old(self)@, names_of(tag_names@)) == popped_while_not_in(
                    self@,
                    names_of(tag_names@),
                ),
            ensures
                self@ == popped_while_not_in(old(self)@, names_of(tag_names@)),
            decreases self@.len(),
        {
            let n = nodes_len(&self.0);
            if n == 0 {
                break;
            }
            if slice_contains(tag_names, nodes_get(&self.0, n - 1).tag_name_as_bytes()) {
                break;
            }
            nodes_pop(&mut self.0);
        }
    }

    /// Pops elements back to a table, a template or the html element.
    pub fn clear_back_to_table_context(&mut self)
        ensures
            final(self)@ == popped_while_not_in(
                old(self)@,
                seq!["table".spec_bytes(), "template".spec_bytes(), "html".spec_bytes()],
            ),
    {
        let names: [&[u8]; 3] = ["table".as_bytes(), "template".as_bytes(), "html".as_bytes()];
        assert(names_of(names@) =~= seq![
            "table".spec_bytes(),
            "template".spec_bytes(),
            "html".spec_bytes(),
        ]);
        self.pop_while_not_in(&names)
    }

    /// Pops elements back to a table body context.
    pub fn clear_back_to_table_body_context(&mut self)
        ensures
            final(self)@ == popped_while_not_in(
                old(self)@,
                seq![
                    "table".spec_bytes(),
                    "tbody".spec_bytes(),
                    "tfoot".spec_bytes(),
                    "thead".spec_bytes(),
                    "template".spec_bytes(),
                    "html".spec_bytes(),
                ],
            ),
    {
        let names: [&[u8]; 6] = [
            "table".as_bytes(),
            "tbody".as_bytes(),
            "tfoot".as_bytes(),
            "thead".as_bytes(),
            "template".as_bytes(),
            "html".as_bytes(),
        ];
        assert(names_of(names@) =~= seq![
            "table".spec_bytes(),
            "tbody".spec_bytes(),
            "tfoot".spec_bytes(),
            "thead".spec_bytes(),
            "template".spec_bytes(),
            "html".spec_bytes(),
        ]);
        self.pop_while_not_in(&names)
    }

    /// Pops elements back to a table row context.
    pub fn clear_back_to_table_row_context(&mut self)
        ensures
            final(self)@ == popped_while_not_in(
                old(self)@,
                seq!["tr".spec_bytes(), "template".spec_bytes(), "html".spec_bytes()],
            ),
    {
        let names: [&[u8]; 3] = ["tr".as_bytes(), "template".as_bytes(), "html".as_bytes()];
        assert(names_of(names@) =~= seq![
            "tr".spec_bytes(),
            "template".spec_bytes(),
            "html".spec_bytes(),
        ]);
        self.pop_while_not_in(&names)
    }

    /* remove ------------------------------------- */

    /// Walks the stack down from the current node and, at the first node
    /// `test` accepts, removes the element whose index from the bottom equals
    /// that node's distance from the top.
    pub fn remove_first_matching_node<F>(&mut self, test: F)
        where
            F: Fn(&NodePtr) -> bool,
        requires
            forall|n: &NodePtr| call_requires(test, (n,)),
        ensures
            exists|k: int| #[trigger] removed_first_match(test, old(self)@, final(self)@, k),
    {
        let n = nodes_len(&self.0);
        let mut k: usize = 0;
        while k < n
            invariant
                n == self@.len(),
                self@ == old(self)@,
                k <= n,
                forall|n: &NodePtr| call_requires(test, (n,)),
                forall|j: int| 0 <= j < k ==> answers(test, #[trigger] old(self)@[old(self)@.len() - 1 - j], false),
            decreases n - k,
        {
            let node = nodes_get(&self.0, n - 1 - k);
            let r = test(node);
            assert(call_ensures(test, (node,), r));
            assert(answers(test, old(self)@[old(self)@.len() - 1 - k], r));
            if r {
                nodes_remove(&mut self.0, k);
                assert(removed_first_match(test, old(self)@, self@, k as int));
                return;
            }
            k += 1;
        }
        assert(removed_first_match(test, old(self)@, self@, n as int));
    }
}

} // verus!
