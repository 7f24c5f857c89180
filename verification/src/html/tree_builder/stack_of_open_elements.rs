//! The stack of open elements, with the scope queries and the pops the tree
//! builder makes on it.

use vstd::prelude::*;
use crate::eco::str_eq;
use super::node::{NodePtr, NodeView};

verus! {

/// The names that bound every scope.
pub const SCOPE_BASE_LIST: [&'static str; 9] = [
    "applet",
    "caption",
    "html",
    "table",
    "td",
    "th",
    "marquee",
    "object",
    "template",
];

/// The stack of open elements; the last element is the current node.
pub struct StackOfOpenElements(pub Vec<NodePtr>);

/// Handles by their views.
pub open spec fn node_views(s: Seq<NodePtr>) -> Seq<NodeView> {
    Seq::new(s.len(), |i: int| s[i]@)
}

/// String slices by their characters.
pub open spec fn strs(s: Seq<&str>) -> Seq<Seq<char>> {
    Seq::new(s.len(), |i: int| s[i]@)
}

impl View for StackOfOpenElements {
    type V = Seq<NodeView>;

    open spec fn view(&self) -> Seq<NodeView> {
        node_views(self.0@)
    }
}

/// The names that bound every scope, as characters.
pub open spec fn scope_base_names() -> Seq<Seq<char>> {
    strs(SCOPE_BASE_LIST@)
}

/// Whether, walking down the stack from the current node, an element named
/// `name` comes before any element whose name is in `list`.
pub open spec fn name_in_scope(s: Seq<NodeView>, name: Seq<char>, list: Seq<Seq<char>>) -> bool
    decreases s.len(),
{
    if s.len() == 0 {
        false
    } else if s.last().tag_name == name {
        true
    } else if list.contains(s.last().tag_name) {
        false
    } else {
        name_in_scope(s.drop_last(), name, list)
    }
}

/// The stack after popping elements until one named `name` has been popped,
/// or until the stack is empty.
pub open spec fn popped_through_name(s: Seq<NodeView>, name: Seq<char>) -> Seq<NodeView>
    decreases s.len(),
{
    if s.len() == 0 {
        s
    } else if s.last().tag_name == name {
        s.drop_last()
    } else {
        popped_through_name(s.drop_last(), name)
    }
}

/// Whether `test` may answer `r` for a handle on the node `v` describes.
pub open spec fn answers<F: Fn(&NodePtr) -> bool>(test: F, v: NodeView, r: bool) -> bool {
    exists|n: NodePtr| n@ == v && #[trigger] call_ensures(test, (&n,), r)
}

/// `after` is `before` after the walk of `remove_first_matching_node` stopped
/// after `k` nodes from the top: `test` answered `false` for each of them, and
/// then either answered `true` for the next one, whose distance from the top
/// is the index removed, or there was none left and nothing changed.
pub open spec fn removed_first_match<F: Fn(&NodePtr) -> bool>(
    test: F,
    before: Seq<NodeView>,
    after: Seq<NodeView>,
    k: int,
) -> bool {
    &&& 0 <= k <= before.len()
    &&& forall|j: int| 0 <= j < k ==> answers(test, #[trigger] before[before.len() - 1 - j], false)
    &&& k < before.len() ==> answers(test, before[before.len() - 1 - k], true) && after == before.remove(k)
    &&& k == before.len() ==> after == before
}

/* laws --------------------------------------- */

/// An element named in scope is open.
pub proof fn law_name_in_scope_is_open(s: Seq<NodeView>, name: Seq<char>, list: Seq<Seq<char>>)
    requires
        name_in_scope(s, name, list),
    ensures
        exists|i: int| 0 <= i < s.len() && (#[trigger] s[i]).tag_name == name,
    decreases s.len(),
{
    if s.last().tag_name != name {
        law_name_in_scope_is_open(s.drop_last(), name, list);
        let i = choose|i: int| 0 <= i < s.len() - 1 && (#[trigger] s.drop_last()[i]).tag_name == name;
        assert(s[i] == s.drop_last()[i]);
    } else {
        assert(s[s.len() - 1].tag_name == name);
    }
}

/// More bounds make a narrower scope: what is in scope for the longer list
/// `wide` of bounds is in scope for the list `narrow` whose names it all holds.
pub proof fn law_wider_bounds_narrow_scope(
    s: Seq<NodeView>,
    name: Seq<char>,
    narrow: Seq<Seq<char>>,
    wide: Seq<Seq<char>>,
)
    requires
        forall|i: int| 0 <= i < narrow.len() ==> wide.contains(#[trigger] narrow[i]),
        name_in_scope(s, name, wide),
    ensures
        name_in_scope(s, name, narrow),
    decreases s.len(),
{
    if s.last().tag_name != name {
        if narrow.contains(s.last().tag_name) {
            let i = choose|i: int| 0 <= i < narrow.len() && narrow[i] == s.last().tag_name;
            assert(wide.contains(narrow[i]));
        }
        law_wider_bounds_narrow_scope(s.drop_last(), name, narrow, wide);
    }
}

/// An element in button scope is in scope.
/// A `button` element above the topmost element named `name` takes that
/// name out of button scope.
pub proof fn law_button_above_leaves_button_scope(s: Seq<NodeView>, name: Seq<char>, k: int)
    requires
        0 <= k < s.len(),
        s[k].tag_name == "button"@,
        forall|j: int| k <= j < s.len() ==> (#[trigger] s[j]).tag_name != name,
    ensures
        !name_in_scope(s, name, scope_base_names().push("button"@)),
    decreases s.len(),
{
    let wide = scope_base_names().push("button"@);
    let last = s.last();
    assert(s[s.len() - 1] == last);
    if k == s.len() - 1 {
        assert(wide[wide.len() - 1] == "button"@);
        assert(wide.contains(last.tag_name));
    } else if !wide.contains(last.tag_name) {
        let t = s.drop_last();
        assert forall|j: int| k <= j < t.len() implies (#[trigger] t[j]).tag_name != name by {
            assert(t[j] == s[j]);
        }
        assert(t[k] == s[k]);
        law_button_above_leaves_button_scope(t, name, k);
    }
}

pub proof fn law_button_scope_within_scope(s: Seq<NodeView>, name: Seq<char>)
    ensures
        name_in_scope(s, name, scope_base_names().push("button"@)) ==> name_in_scope(s, name, scope_base_names()),
{
    let wide = scope_base_names().push("button"@);
    assert forall|i: int| 0 <= i < scope_base_names().len() implies wide.contains(#[trigger] scope_base_names()[i]) by {
        assert(wide[i] == scope_base_names()[i]);
    }
    if name_in_scope(s, name, wide) {
        law_wider_bounds_narrow_scope(s, name, scope_base_names(), wide);
    }
}

/// `k` is where popping through `name` cuts the stack: the topmost element
/// named `name` sits at `k`, or there is none and `k` is 0.
pub open spec fn cut_through_name(s: Seq<NodeView>, name: Seq<char>, k: int) -> bool {
    &&& 0 <= k <= s.len()
    &&& forall|j: int| k < j < s.len() ==> (#[trigger] s[j]).tag_name != name
    &&& (k < s.len() && s[k].tag_name == name) || (k == 0 && forall|j: int| 0 <= j < s.len() ==> (#[trigger] s[j]).tag_name != name)
}

/// Popping until `name` pops exactly down to the topmost element so named,
/// that one included, or empties the stack where there is none.
pub proof fn law_popped_through_name(s: Seq<NodeView>, name: Seq<char>)
    ensures
        exists|k: int| #[trigger] cut_through_name(s, name, k) && popped_through_name(s, name) == s.subrange(0, k),
    decreases s.len(),
{
    if s.len() == 0 {
        assert(cut_through_name(s, name, 0) && popped_through_name(s, name) == s.subrange(0, 0));
    } else if s.last().tag_name == name {
        let k = s.len() - 1;
        assert(cut_through_name(s, name, k) && popped_through_name(s, name) == s.subrange(0, k));
    } else {
        law_popped_through_name(s.drop_last(), name);
        let t = s.drop_last();
        let k = choose|k: int| #[trigger] cut_through_name(t, name, k) && popped_through_name(t, name) == t.subrange(0, k);
        assert forall|j: int| k < j < s.len() implies (#[trigger] s[j]).tag_name != name by {
            if j < s.len() - 1 {
                assert(s[j] == t[j]);
            }
        }
        if k < t.len() && t[k].tag_name == name {
            assert(s[k] == t[k]);
        } else {
            assert forall|j: int| 0 <= j < s.len() implies (#[trigger] s[j]).tag_name != name by {
                if j < s.len() - 1 {
                    assert(s[j] == t[j]);
                }
            }
        }
        assert(cut_through_name(s, name, k));
        assert(popped_through_name(s, name) == s.subrange(0, k));
    }
}

/// Whether `name` is one of `list`.
fn list_contains(list: &[&str], name: &str) -> (res: bool)
    ensures
        res == strs(list@).contains(name@),
{
    let mut i: usize = 0;
    while i < list.len()
        invariant
            i <= list@.len(),
            forall|j: int| 0 <= j < i ==> strs(list@)[j] != name@,
        decreases list@.len() - i,
    {
        if str_eq(list[i], name) {
            assert(strs(list@)[i as int] == name@);
            return true;
        }
        i += 1;
    }
    false
}

/// The names that bound every scope, in a vector.
fn scope_base_vec() -> (res: Vec<&'static str>)
    ensures
        strs(res@) == scope_base_names(),
{
    let mut v: Vec<&'static str> = Vec::new();
    let mut i: usize = 0;
    while i < 9
        invariant
            i <= 9,
            v@ == SCOPE_BASE_LIST@.subrange(0, i as int),
        decreases 9 - i,
    {
        v.push(SCOPE_BASE_LIST[i]);
        i += 1;
        assert(v@ =~= SCOPE_BASE_LIST@.subrange(0, i as int));
    }
    assert(SCOPE_BASE_LIST@.subrange(0, 9) =~= SCOPE_BASE_LIST@);
    assert(strs(v@) =~= scope_base_names());
    v
}

impl StackOfOpenElements {
    /// An empty stack.
    pub fn new() -> (res: Self)
        ensures
            res@ == Seq::<NodeView>::empty(),
    {
        let res = Self(Vec::new());
        assert(res@ =~= Seq::<NodeView>::empty());
        res
    }

    /// Pushes a node (the vector's own `push`, which the stack hands out).
    pub fn push(&mut self, node: NodePtr)
        ensures
            final(self)@ == old(self)@.push(node@),
    {
        let ghost v = node@;
        self.0.push(node);
        assert(self@ =~= old(self)@.push(v));
    }

    /// Pops the current node, if any (the vector's own `pop`).
    pub fn pop(&mut self) -> (res: Option<NodePtr>)
        ensures
            old(self)@.len() == 0 ==> res is None && final(self)@ == old(self)@,
            old(self)@.len() > 0 ==> (res matches Some(n) && n@ == old(self)@.last()
                && final(self)@ == old(self)@.drop_last()),
    {
        let res = self.0.pop();
        assert(self@ =~= if old(self)@.len() > 0 { old(self)@.drop_last() } else { old(self)@ });
        res
    }

    /* getter ------------------------------------- */

    /// The node at `index`, counted from the bottom.
    pub fn get(&self, index: usize) -> (res: NodePtr)
        requires
            index < self@.len(),
        ensures
            res@ == self@[index as int],
    {
        self.0[index].clone()
    }

    /// The current node, if the stack is not empty.
    pub fn current_node(&self) -> (res: Option<NodePtr>)
        ensures
            self@.len() == 0 ==> res is None,
            self@.len() > 0 ==> (res matches Some(n) && n@ == self@.last()),
    {
        let n = self.0.len();
        if n > 0 {
            return Some(self.0[n - 1].clone());
        }
        None
    }

    /// The number of open elements.
    pub fn len(&self) -> (res: usize)
        ensures
            res == self@.len(),
    {
        self.0.len()
    }

    /* predicate ---------------------------------- */

    /// Whether `test` holds of some open element, trying them from the bottom.
    pub fn any<F>(&self, test: F) -> (res: bool)
        where
            F: Fn(&NodePtr) -> bool,
        requires
            forall|n: &NodePtr| call_requires(test, (n,)),
        ensures
            res ==> exists|i: int| 0 <= i < self@.len() && answers(test, #[trigger] self@[i], true),
            !res ==> forall|i: int| 0 <= i < self@.len() ==> answers(test, #[trigger] self@[i], false),
    {
        let n = self.0.len();
        let mut i: usize = 0;
        while i < n
            invariant
                n == self@.len(),
                i <= n,
                forall|n: &NodePtr| call_requires(test, (n,)),
                forall|j: int| 0 <= j < i ==> answers(test, #[trigger] self@[j], false),
            decreases n - i,
        {
            let node = &self.0[i];
            let r = test(node);
            assert(call_ensures(test, (node,), r));
            assert(answers(test, self@[i as int], r));
            if r {
                return true;
            }
            i += 1;
        }
        false
    }

    /// Whether an open element is named `tag_name`.
    pub fn contains(&self, tag_name: &str) -> (res: bool)
        ensures
            res == exists|i: int| 0 <= i < self@.len() && (#[trigger] self@[i]).tag_name == tag_name@,
    {
        let n = self.0.len();
        let mut i: usize = 0;
        while i < n
            invariant
                n == self@.len(),
                i <= n,
                forall|j: int| 0 <= j < i ==> (#[trigger] self@[j]).tag_name != tag_name@,
            decreases n - i,
        {
            if self.0[i].is_named(tag_name) {
                assert(self@[i as int].tag_name == tag_name@);
                return true;
            }
            i += 1;
        }
        false
    }

    /// Whether an open element is named one of `tag_names`.
    pub fn contains_in(&self, tag_names: &[&str]) -> (res: bool)
        ensures
            res == exists|i: int| 0 <= i < self@.len() && strs(tag_names@).contains((#[trigger] self@[i]).tag_name),
    {
        let n = self.0.len();
        let mut i: usize = 0;
        while i < n
            invariant
                n == self@.len(),
                i <= n,
                forall|j: int| 0 <= j < i ==> !strs(tag_names@).contains((#[trigger] self@[j]).tag_name),
            decreases n - i,
        {
            if list_contains(tag_names, self.0[i].tag_name()) {
                assert(strs(tag_names@).contains(self@[i as int].tag_name));
                return true;
            }
            i += 1;
        }
        false
    }

    /// Whether an open element is named none of `tag_names`.
    pub fn contains_not_in(&self, tag_names: &[&str]) -> (res: bool)
        ensures
            res == exists|i: int| 0 <= i < self@.len() && !strs(tag_names@).contains((#[trigger] self@[i]).tag_name),
    {
        let n = self.0.len();
        let mut i: usize = 0;
        while i < n
            invariant
                n == self@.len(),
                i <= n,
                forall|j: int| 0 <= j < i ==> strs(tag_names@).contains((#[trigger] self@[j]).tag_name),
            decreases n - i,
        {
            if !list_contains(tag_names, self.0[i].tag_name()) {
                assert(!strs(tag_names@).contains(self@[i as int].tag_name));
                return true;
            }
            i += 1;
        }
        false
    }

    /// Whether `node` is open.
    pub fn contains_node(&self, node: &NodePtr) -> (res: bool)
        ensures
            res == exists|i: int| 0 <= i < self@.len() && (#[trigger] self@[i]).id == node.id,
    {
        let n = self.0.len();
        let mut i: usize = 0;
        while i < n
            invariant
                n == self@.len(),
                i <= n,
                forall|j: int| 0 <= j < i ==> (#[trigger] self@[j]).id != node.id,
            decreases n - i,
        {
            if self.0[i].ptr_eq(node) {
                assert(self@[i as int].id == node.id);
                return true;
            }
            i += 1;
        }
        false
    }

    /* scope -------------------------------------- */

    /// Whether an element named `tag_name` is in the scope that the names in
    /// `list` bound.
    pub fn has_element_in_specific_scope(&self, tag_name: &str, list: Vec<&str>) -> (res: bool)
        ensures
            res == name_in_scope(self@, tag_name@, strs(list@)),
    {
        let mut i = self.0.len();
        assert(self@.subrange(0, i as int) =~= self@);
        while i > 0
            invariant
                i <= self@.len(),
                name_in_scope(self@, tag_name@, strs(list@)) == name_in_scope(
                    self@.subrange(0, i as int),
                    tag_name@,
                    strs(list@),
                ),
            decreases i,
        {
            let k = i - 1;
            let ghost sub = self@.subrange(0, i as int);
            assert(sub.drop_last() == self@.subrange(0, k as int));
            assert(sub.last() == self@[k as int]);
            let name = self.0[k].tag_name();
            if str_eq(name, tag_name) {
                return true;
            }
            if list_contains(list.as_slice(), name) {
                return false;
            }
            i = k;
        }
        false
    }

    /// Whether an element named `tag_name` is in scope.
    pub fn has_element_in_scope(&self, tag_name: &str) -> (res: bool)
        ensures
            res == name_in_scope(self@, tag_name@, scope_base_names()),
    {
        self.has_element_in_specific_scope(tag_name, scope_base_vec())
    }

    /// Whether an element named `tag_name` is in button scope.
    pub fn has_element_in_button_scope(&self, tag_name: &str) -> (res: bool)
        ensures
            res == name_in_scope(self@, tag_name@, scope_base_names().push("button"@)),
            res ==> name_in_scope(self@, tag_name@, scope_base_names()),
            forall|k: int|
                #![trigger self@[k]]
                0 <= k < self@.len() && self@[k].tag_name == "button"@ && (forall|j: int|
                    k <= j < self@.len() ==> (#[trigger] self@[j]).tag_name != tag_name@) ==> !res,
    {
        proof {
            law_button_scope_within_scope(self@, tag_name@);
            assert forall|k: int|
                #![trigger self@[k]]
                0 <= k < self@.len() && self@[k].tag_name == "button"@ && (forall|j: int|
                    k <= j < self@.len() ==> (#[trigger] self@[j]).tag_name != tag_name@) implies !name_in_scope(
                self@,
                tag_name@,
                scope_base_names().push("button"@),
            ) by {
                law_button_above_leaves_button_scope(self@, tag_name@, k);
            }
        }
        let mut list = scope_base_vec();
        list.push("button");
        assert(strs(list@) =~= scope_base_names().push("button"@));
        self.has_element_in_specific_scope(tag_name, list)
    }

    /* pop ---------------------------------------- */

    /// Pops elements until an element named `tag_name` has been popped, or
    /// until the stack is empty.
    pub fn pop_until(&mut self, tag_name: &str)
        ensures
            final(self)@ == popped_through_name(old(self)@, tag_name@),
    {
        loop
            invariant_except_break
                popped_through_name(old(self)@, tag_name@) == popped_through_name(self@, tag_name@),
            ensures
                self@ == popped_through_name(old(self)@, tag_name@),
            decreases self@.len(),
        {
            let n = self.0.len();
            if n == 0 {
                break;
            }
            let found = self.0[n - 1].is_named(tag_name);
            let ghost before = self@;
            self.0.pop();
            assert(self@ =~= before.drop_last());
            if found {
                break;
            }
        }
    }

    /* remove ------------------------------------- */

    /// Walks the stack down from the current node and, at the first node
    /// `test` accepts, removes the element whose index from the bottom equals
    /// that node's distance from the top.
    pub fn remove_first_matching_node<F>(&mut self, test: F)
        where
            F: Fn(&NodePtr) -> bool,
        requires
            forall|n: &NodePtr| call_requires(test, (n,)),
        ensures
            exists|k: int| #[trigger] removed_first_match(test, old(self)@, final(self)@, k),
    {
        let n = self.0.len();
        let mut k: usize = 0;
        while k < n
            invariant
                n == self@.len(),
                self@ == old(self)@,
                self.0@ == old(self).0@,
                k <= n,
                forall|n: &NodePtr| call_requires(test, (n,)),
                forall|j: int| 0 <= j < k ==> answers(test, #[trigger] old(self)@[old(self)@.len() - 1 - j], false),
            decreases n - k,
        {
            let node = &self.0[n - 1 - k];
            let r = test(node);
            assert(call_ensures(test, (node,), r));
            assert(answers(test, old(self)@[old(self)@.len() - 1 - k], r));
            if r {
                self.0.remove(k);
                assert(self@ =~= old(self)@.remove(k as int));
                assert(removed_first_match(test, old(self)@, self@, k as int));
                return;
            }
            k += 1;
        }
        assert(removed_first_match(test, old(self)@, self@, n as int));
    }
}

} // verus!
