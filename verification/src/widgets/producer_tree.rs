//! Producer tree: the collapsible tree of feed sources in the left pane.
//!
//! - `Up`/`k` and `Down`/`j` move the cursor over the visible rows.
//! - `Right`/`l` expands the node under the cursor; `Left`/`h` collapses it.
//! - `Enter` toggles the selection of a leaf and the expansion of a parent.
//! - `Space` toggles the selection of the node under the cursor.
//!
//! Nodes are addressed by their id. Where an id occurs more than once, the
//! first node in reading order (a parent before its children, children from
//! first to last) is the one meant.

use crate::event::{AppEvent, Direction, EventView};
use crate::layout::strings_view;
use crate::text::{push_repeated, push_str, repeated, string_of};
use crate::theme::{Style, Theme};
use vstd::prelude::*;

verus! {

// ---------------------------------------------------------------------------
// Nodes
// ---------------------------------------------------------------------------

/// Whether the producers under a node are tailed.
#[derive(Debug, Clone, Copy, PartialEq, Eq, Structural)]
pub enum NodeSelection {
    /// All producers under this node are tailed.
    Selected,
    /// No producers under this node are tailed.
    Unselected,
    /// Some (but not all) producers under this node are tailed.
    Partial,
}

/// A node of the producer tree.
#[derive(Debug)]
pub struct TreeNode {
    /// Stable identifier, by which the node is addressed.
    pub id: String,
    /// Human-readable display label.
    pub label: String,
    pub expanded: bool,
    pub selection: NodeSelection,
    pub children: Vec<TreeNode>,
}

/// The mathematical content of a [`TreeNode`].
pub struct NodeView {
    pub id: Seq<char>,
    pub label: Seq<char>,
    pub expanded: bool,
    pub selection: NodeSelection,
    pub children: Seq<NodeView>,
}

/// The content of a node.
pub open spec fn node_view(n: TreeNode) -> NodeView
    decreases n,
{
    NodeView {
        id: n.id@,
        label: n.label@,
        expanded: n.expanded,
        selection: n.selection,
        children: nodes_view(n.children@),
    }
}

/// The contents of a list of nodes, in order.
pub open spec fn nodes_view(s: Seq<TreeNode>) -> Seq<NodeView>
    decreases s,
{
    if s.len() == 0 {
        Seq::empty()
    } else {
        nodes_view(s.drop_last()).push(node_view(s.last()))
    }
}

/// The view of a list has the views of its nodes, one for one.
pub proof fn lemma_nodes_view(s: Seq<TreeNode>)
    ensures
        nodes_view(s).len() == s.len(),
        forall|i: int| 0 <= i < s.len() ==> #[trigger] nodes_view(s)[i] == node_view(s[i]),
    decreases s.len(),
{
    if s.len() > 0 {
        lemma_nodes_view(s.drop_last());
    }
}

/// Replacing one node replaces its view.
pub proof fn lemma_nodes_view_update(s: Seq<TreeNode>, i: int, n: TreeNode)
    requires
        0 <= i < s.len(),
    ensures
        nodes_view(s.update(i, n)) == nodes_view(s).update(i, node_view(n)),
{
    lemma_nodes_view(s);
    lemma_nodes_view(s.update(i, n));
    assert(nodes_view(s.update(i, n)) =~= nodes_view(s).update(i, node_view(n)));
}

impl TreeNode {
    /// A node without children, expanded and unselected.
    pub fn new(id: &str, label: &str) -> (r: TreeNode)
        ensures
            node_view(r) == (NodeView {
                id: id@,
                label: label@,
                expanded: true,
                selection: NodeSelection::Unselected,
                children: Seq::empty(),
            }),
    {
        TreeNode {
            id: id.to_owned(),
            label: label.to_owned(),
            expanded: true,
            selection: NodeSelection::Unselected,
            children: Vec::new(),
        }
    }

    /// This node with `children` in place of its own.
    pub fn with_children(self, children: Vec<TreeNode>) -> (r: TreeNode)
        ensures
            node_view(r) == (NodeView { children: nodes_view(children@), ..node_view(self) }),
    {
        let mut node = self;
        node.children = children;
        node
    }
}

// ---------------------------------------------------------------------------
// Addressing by id
// ---------------------------------------------------------------------------

/// The node or one of its descendants has the id.
pub open spec fn holds(n: NodeView, id: Seq<char>) -> bool
    decreases n,
{
    n.id == id || has_id(n.children, id)
}

/// Some node of the forest has the id.
pub open spec fn has_id(nodes: Seq<NodeView>, id: Seq<char>) -> bool
    decreases nodes,
{
    exists|i: int| 0 <= i < nodes.len() && holds(#[trigger] nodes[i], id)
}

/// `k` is the first tree of the forest that holds the id.
pub open spec fn is_first_holder(nodes: Seq<NodeView>, id: Seq<char>, k: int) -> bool {
    &&& 0 <= k < nodes.len()
    &&& holds(nodes[k], id)
    &&& forall|j: int| 0 <= j < k ==> !holds(#[trigger] nodes[j], id)
}

/// The index of the first tree of the forest that holds the id.
pub open spec fn first_holder(nodes: Seq<NodeView>, id: Seq<char>) -> int {
    choose|k: int| is_first_holder(nodes, id, k)
}

/// A first holder found by search is the first holder.
pub proof fn lemma_first_holder(nodes: Seq<NodeView>, id: Seq<char>, k: int)
    requires
        is_first_holder(nodes, id, k),
    ensures
        has_id(nodes, id),
        first_holder(nodes, id) == k,
{
    let c = first_holder(nodes, id);
    assert(is_first_holder(nodes, id, c));
    if c < k {
        assert(!holds(nodes[c], id));
    } else if k < c {
        assert(!holds(nodes[k], id));
    }
}

// ---------------------------------------------------------------------------
// Visible rows
// ---------------------------------------------------------------------------

/// The depth one level further down, held to the largest number.
pub open spec fn deeper(depth: usize) -> usize {
    if depth < usize::MAX {
        (depth + 1) as usize
    } else {
        depth
    }
}

/// The visible rows of a forest at a depth: each node, followed by the rows
/// of its children if it is expanded.
pub open spec fn rows(nodes: Seq<NodeView>, depth: usize) -> Seq<(usize, NodeView)>
    decreases nodes, 0nat,
{
    if nodes.len() == 0 {
        Seq::empty()
    } else {
        rows(nodes.drop_last(), depth) + rows_of(nodes.last(), depth)
    }
}

/// The visible rows of one tree.
pub open spec fn rows_of(n: NodeView, depth: usize) -> Seq<(usize, NodeView)>
    decreases n, 1nat,
{
    if n.expanded {
        seq![(depth, n)] + rows(n.children, deeper(depth))
    } else {
        seq![(depth, n)]
    }
}

/// The contents of a list of rows that refer to nodes.
pub open spec fn rows_view(r: Seq<(usize, &TreeNode)>) -> Seq<(usize, NodeView)> {
    Seq::new(r.len(), |i: int| (r[i].0, node_view(*r[i].1)))
}

/// Flattens a forest into `(depth, node)` rows, leaving out what lies under
/// collapsed nodes.
pub fn flatten<'a>(nodes: &'a Vec<TreeNode>, depth: usize) -> (out: Vec<(usize, &'a TreeNode)>)
    ensures
        rows_view(out@) == rows(nodes_view(nodes@), depth),
    decreases nodes@,
{
    let mut out: Vec<(usize, &'a TreeNode)> = Vec::new();
    let mut i: usize = 0;
    proof {
        lemma_nodes_view(nodes@);
        assert(nodes_view(nodes@).take(0) =~= Seq::<NodeView>::empty());
        assert(rows_view(out@) =~= Seq::<(usize, NodeView)>::empty());
    }
    while i < nodes.len()
        invariant
            i <= nodes.len(),
            rows_view(out@) == rows(nodes_view(nodes@).take(i as int), depth),
            nodes_view(nodes@).len() == nodes@.len(),
            forall|j: int| 0 <= j < nodes@.len() ==> #[trigger] nodes_view(nodes@)[j] == node_view(
                nodes@[j],
            ),
        decreases nodes.len() - i,
    {
        let node = &nodes[i];
        let ghost before = out@;
        out.push((depth, node));
        if node.expanded {
            let below: usize = if depth < usize::MAX {
                depth + 1
            } else {
                depth
            };
            let sub = flatten(&node.children, below);
            let mut j: usize = 0;
            let ghost mid = out@;
            while j < sub.len()
                invariant
                    j <= sub.len(),
                    out@ == mid + sub@.take(j as int),
                decreases sub.len() - j,
            {
                out.push(sub[j]);
                assert(out@ =~= mid + sub@.take(j + 1));
                j += 1;
            }
            assert(sub@.take(sub@.len() as int) =~= sub@);
            assert(rows_view(out@) =~= rows_view(before) + (seq![(depth, node_view(*node))]
                + rows_view(sub@)));
        } else {
            assert(rows_view(out@) =~= rows_view(before) + seq![(depth, node_view(*node))]);
        }
        proof {
            let v = nodes_view(nodes@);
            let nv = node_view(*node);
            assert(v.take(i + 1).drop_last() =~= v.take(i as int));
            assert(v.take(i + 1).last() == nv);
            assert(rows(v.take(i + 1), depth) == rows(v.take(i as int), depth) + rows_of(
                nv,
                depth,
            ));
            assert(nv.children == nodes_view(node.children@));
            assert(nv.expanded == node.expanded);
        }
        i += 1;
    }
    assert(nodes_view(nodes@).take(nodes@.len() as int) =~= nodes_view(nodes@));
    out
}

// ---------------------------------------------------------------------------
// Expanding and collapsing
// ---------------------------------------------------------------------------

/// The expansion flag after a change: `Some(v)` sets it to `v`, `None` flips
/// it.
pub open spec fn changed_flag(now: bool, change: Option<bool>) -> bool {
    match change {
        Some(v) => v,
        None => !now,
    }
}

/// The forest with the expansion flag of the first node that has the id
/// changed; unchanged if no node has it.
pub open spec fn expanded_spec(nodes: Seq<NodeView>, id: Seq<char>, change: Option<bool>) -> Seq<
    NodeView,
>
    decreases nodes, 0nat,
{
    let k = first_holder(nodes, id);
    if has_id(nodes, id) && 0 <= k < nodes.len() {
        nodes.update(k, expanded_in(nodes[k], id, change))
    } else {
        nodes
    }
}

/// The tree with the expansion flag of its first node that has the id
/// changed.
pub open spec fn expanded_in(n: NodeView, id: Seq<char>, change: Option<bool>) -> NodeView
    decreases n, 1nat,
{
    if n.id == id {
        NodeView { expanded: changed_flag(n.expanded, change), ..n }
    } else {
        NodeView { children: expanded_spec(n.children, id, change), ..n }
    }
}

/// Changes the expansion flag of the first node with the id.
fn change_expanded(nodes: &mut Vec<TreeNode>, id: &String, change: Option<bool>) -> (found: bool)
    ensures
        found == has_id(nodes_view(old(nodes)@), id@),
        nodes_view(final(nodes)@) == expanded_spec(nodes_view(old(nodes)@), id@, change),
    decreases old(nodes)@,
{
    let ghost ov = nodes_view(nodes@);
    proof {
        lemma_nodes_view(nodes@);
    }
    let mut i: usize = 0;
    while i < nodes.len()
        invariant
            i <= nodes.len(),
            nodes@.len() == old(nodes)@.len(),
            ov.len() == nodes@.len(),
            nodes_view(nodes@) == ov,
            ov == nodes_view(old(nodes)@),
            forall|j: int| 0 <= j < i ==> !holds(#[trigger] ov[j], id@),
            forall|j: int| i <= j < nodes@.len() ==> nodes@[j] == old(nodes)@[j],
        decreases nodes.len() - i,
    {
        let ghost pre = nodes@;
        proof {
            lemma_nodes_view(pre);
        }
        if nodes[i].id == *id {
            let v: bool = match change {
                Some(b) => b,
                None => !nodes[i].expanded,
            };
            nodes[i].expanded = v;
            proof {
                assert(nodes@ =~= pre.update(i as int, nodes@[i as int]));
                lemma_nodes_view_update(pre, i as int, nodes@[i as int]);
                lemma_first_holder(ov, id@, i as int);
            }
            return true;
        }
        let hit = change_expanded(&mut nodes[i].children, id, change);
        proof {
            assert(nodes@ =~= pre.update(i as int, nodes@[i as int]));
            lemma_nodes_view_update(pre, i as int, nodes@[i as int]);
        }
        if hit {
            proof {
                lemma_first_holder(ov, id@, i as int);
            }
            return true;
        }
        proof {
            assert(nodes_view(nodes@) =~= ov);
        }
        i += 1;
    }
    false
}

/// Sets the `expanded` flag of the first node with `id`. Returns `true` if
/// there is such a node.
pub fn set_expanded(nodes: &mut Vec<TreeNode>, id: &str, expanded: bool) -> (found: bool)
    ensures
        found == has_id(nodes_view(old(nodes)@), id@),
        nodes_view(final(nodes)@) == expanded_spec(nodes_view(old(nodes)@), id@, Some(expanded)),
{
    let wanted = id.to_owned();
    change_expanded(nodes, &wanted, Some(expanded))
}

/// Flips the `expanded` flag of the first node with `id`. Returns `true` if
/// there is such a node.
pub fn toggle_expanded(nodes: &mut Vec<TreeNode>, id: &str) -> (found: bool)
    ensures
        found == has_id(nodes_view(old(nodes)@), id@),
        nodes_view(final(nodes)@) == expanded_spec(nodes_view(old(nodes)@), id@, None),
{
    let wanted = id.to_owned();
    change_expanded(nodes, &wanted, None)
}

// ---------------------------------------------------------------------------
// Leaves
// ---------------------------------------------------------------------------

/// Whether the first node of the forest that has the id is a leaf; `None` if
/// no node has it.
pub open spec fn leaf_of(nodes: Seq<NodeView>, id: Seq<char>) -> Option<bool>
    decreases nodes,
{
    let k = first_holder(nodes, id);
    if has_id(nodes, id) && 0 <= k < nodes.len() {
        if nodes[k].id == id {
            Some(nodes[k].children.len() == 0)
        } else {
            leaf_of(nodes[k].children, id)
        }
    } else {
        None
    }
}

/// The first node with the id is a leaf, or no node has the id.
pub open spec fn is_leaf_spec(nodes: Seq<NodeView>, id: Seq<char>) -> bool {
    match leaf_of(nodes, id) {
        Some(b) => b,
        None => true,
    }
}

/// Tells whether the first node with the id is a leaf.
fn find_leaf(nodes: &Vec<TreeNode>, id: &String) -> (r: Option<bool>)
    ensures
        r == leaf_of(nodes_view(nodes@), id@),
        r is Some == has_id(nodes_view(nodes@), id@),
    decreases nodes@,
{
    let ghost ov = nodes_view(nodes@);
    proof {
        lemma_nodes_view(nodes@);
    }
    let mut i: usize = 0;
    while i < nodes.len()
        invariant
            i <= nodes.len(),
            ov == nodes_view(nodes@),
            ov.len() == nodes@.len(),
            forall|j: int| 0 <= j < nodes@.len() ==> #[trigger] ov[j] == node_view(nodes@[j]),
            forall|j: int| 0 <= j < i ==> !holds(#[trigger] ov[j], id@),
        decreases nodes.len() - i,
    {
        if nodes[i].id == *id {
            proof {
                lemma_first_holder(ov, id@, i as int);
                lemma_nodes_view(nodes@[i as int].children@);
            }
            return Some(nodes[i].children.len() == 0);
        }
        let below = find_leaf(&nodes[i].children, id);
        if below.is_some() {
            proof {
                lemma_first_holder(ov, id@, i as int);
            }
            return below;
        }
        i += 1;
    }
    None
}

/// Returns `Some(true)` if the first node with `id` is a leaf, `Some(false)`
/// if it has children, or `None` if no node has the id.
pub fn find_is_leaf(nodes: &Vec<TreeNode>, id: &str) -> (r: Option<bool>)
    ensures
        r == leaf_of(nodes_view(nodes@), id@),
{
    let wanted = id.to_owned();
    find_leaf(nodes, &wanted)
}

/// Tells whether the first node with `id` is a leaf; an id that no node has
/// counts as a leaf.
pub fn is_leaf(nodes: &Vec<TreeNode>, id: &str) -> (r: bool)
    ensures
        r == is_leaf_spec(nodes_view(nodes@), id@),
{
    match find_is_leaf(nodes, id) {
        Some(b) => b,
        None => true,
    }
}

// ---------------------------------------------------------------------------
// Selection
// ---------------------------------------------------------------------------

/// The selection that a toggle gives: unselected becomes selected, anything
/// else becomes unselected.
pub open spec fn toggled(s: NodeSelection) -> NodeSelection {
    match s {
        NodeSelection::Unselected => NodeSelection::Selected,
        _ => NodeSelection::Unselected,
    }
}

/// The forest with every node, at every depth, set to `state`.
pub open spec fn filled(nodes: Seq<NodeView>, state: NodeSelection) -> Seq<NodeView>
    decreases nodes,
{
    if nodes.len() == 0 {
        Seq::empty()
    } else {
        filled(nodes.drop_last(), state).push(
            NodeView {
                selection: state,
                children: filled(nodes.last().children, state),
                ..nodes.last()
            },
        )
    }
}

/// The selection of a parent, from those of its direct children: selected
/// if all are, unselected if all are or there is none, else partial.
pub open spec fn summary(children: Seq<NodeView>) -> NodeSelection {
    if children.len() == 0 {
        NodeSelection::Unselected
    } else if forall|i: int|
        0 <= i < children.len() ==> (#[trigger] children[i]).selection == NodeSelection::Selected {
        NodeSelection::Selected
    } else if forall|i: int|
        0 <= i < children.len() ==> (#[trigger] children[i]).selection
            == NodeSelection::Unselected {
        NodeSelection::Unselected
    } else {
        NodeSelection::Partial
    }
}

/// The forest after the selection of the first node with the id was
/// toggled: the node and all its descendants take the new state, and each
/// of its ancestors is summed up anew from its children.
pub open spec fn selection_spec(nodes: Seq<NodeView>, id: Seq<char>) -> Seq<NodeView>
    decreases nodes, 0nat,
{
    let k = first_holder(nodes, id);
    if has_id(nodes, id) && 0 <= k < nodes.len() {
        nodes.update(k, selection_in(nodes[k], id))
    } else {
        nodes
    }
}

/// The tree after the selection of its first node with the id was toggled.
pub open spec fn selection_in(n: NodeView, id: Seq<char>) -> NodeView
    decreases n, 1nat,
{
    if n.id == id {
        NodeView {
            selection: toggled(n.selection),
            children: filled(n.children, toggled(n.selection)),
            ..n
        }
    } else {
        let below = selection_spec(n.children, id);
        NodeView { selection: summary(below), children: below, ..n }
    }
}

/// Sets every node of the forest, at every depth, to `state`.
pub fn set_all_selection(nodes: &mut Vec<TreeNode>, state: NodeSelection)
    ensures
        nodes_view(final(nodes)@) == filled(nodes_view(old(nodes)@), state),
    decreases old(nodes)@,
{
    let ghost ov = nodes_view(nodes@);
    proof {
        lemma_nodes_view(nodes@);
        assert(ov.take(0) =~= Seq::<NodeView>::empty());
        assert(nodes_view(nodes@.take(0)) =~= Seq::<NodeView>::empty());
    }
    let mut i: usize = 0;
    while i < nodes.len()
        invariant
            i <= nodes.len(),
            nodes@.len() == old(nodes)@.len(),
            ov == nodes_view(old(nodes)@),
            ov.len() == nodes@.len(),
            forall|j: int| 0 <= j < ov.len() ==> #[trigger] ov[j] == node_view(old(nodes)@[j]),
            nodes_view(nodes@.take(i as int)) == filled(ov.take(i as int), state),
            forall|j: int| i <= j < nodes@.len() ==> nodes@[j] == old(nodes)@[j],
        decreases nodes.len() - i,
    {
        let ghost pre = nodes@;
        nodes[i].selection = state;
        set_all_selection(&mut nodes[i].children, state);
        proof {
            assert(nodes@ =~= pre.update(i as int, nodes@[i as int]));
            assert(nodes@.take(i + 1).drop_last() =~= pre.take(i as int));
            assert(ov.take(i + 1).drop_last() =~= ov.take(i as int));
            assert(ov.take(i + 1).last() == ov[i as int]);
            assert(nodes@.take(i + 1).last() == nodes@[i as int]);
            assert(ov[i as int].children == nodes_view(pre[i as int].children@));
            assert(node_view(nodes@[i as int]) == (NodeView {
                selection: state,
                children: filled(ov[i as int].children, state),
                ..ov[i as int]
            }));
            assert(nodes_view(nodes@.take(i + 1)) == nodes_view(pre.take(i as int)).push(
                node_view(nodes@[i as int]),
            ));
        }
        i += 1;
    }
    proof {
        assert(nodes@.take(nodes@.len() as int) =~= nodes@);
        assert(ov.take(ov.len() as int) =~= ov);
    }
}

/// Derives a parent's selection state from the states of its direct
/// children.
///
/// - All `Selected`   gives `Selected`
/// - All `Unselected` gives `Unselected`, as does no child at all
/// - Any mix (or any child that is `Partial`) gives `Partial`
pub fn compute_selection_from_children(children: &Vec<TreeNode>) -> (r: NodeSelection)
    ensures
        r == summary(nodes_view(children@)),
{
    proof {
        lemma_nodes_view(children@);
    }
    if children.len() == 0 {
        return NodeSelection::Unselected;
    }
    let mut all_sel: bool = true;
    let mut all_unsel: bool = true;
    let mut i: usize = 0;
    while i < children.len()
        invariant
            i <= children.len(),
            all_sel == (forall|j: int|
                0 <= j < i ==> (#[trigger] children@[j]).selection == NodeSelection::Selected),
            all_unsel == (forall|j: int|
                0 <= j < i ==> (#[trigger] children@[j]).selection == NodeSelection::Unselected),
        decreases children.len() - i,
    {
        match children[i].selection {
            NodeSelection::Selected => {
                all_unsel = false;
            },
            NodeSelection::Unselected => {
                all_sel = false;
            },
            NodeSelection::Partial => {
                all_sel = false;
                all_unsel = false;
            },
        }
        i += 1;
    }
    let ghost v = nodes_view(children@);
    proof {
        assert(all_sel == (forall|j: int|
            0 <= j < v.len() ==> (#[trigger] v[j]).selection == NodeSelection::Selected)) by {
            if all_sel {
                assert forall|j: int| 0 <= j < v.len() implies (#[trigger] v[j]).selection
                    == NodeSelection::Selected by {
                    assert(children@[j].selection == NodeSelection::Selected);
                }
            } else {
                let w = choose|j: int|
                    0 <= j < children@.len() && (#[trigger] children@[j]).selection
                        != NodeSelection::Selected;
                assert(v[w].selection != NodeSelection::Selected);
            }
        }
        assert(all_unsel == (forall|j: int|
            0 <= j < v.len() ==> (#[trigger] v[j]).selection == NodeSelection::Unselected)) by {
            if all_unsel {
                assert forall|j: int| 0 <= j < v.len() implies (#[trigger] v[j]).selection
                    == NodeSelection::Unselected by {
                    assert(children@[j].selection == NodeSelection::Unselected);
                }
            } else {
                let w = choose|j: int|
                    0 <= j < children@.len() && (#[trigger] children@[j]).selection
                        != NodeSelection::Unselected;
                assert(v[w].selection != NodeSelection::Unselected);
            }
        }
    }
    if all_sel {
        NodeSelection::Selected
    } else if all_unsel {
        NodeSelection::Unselected
    } else {
        NodeSelection::Partial
    }
}

/// Toggles the selection of the first node with the id.
fn toggle_in(nodes: &mut Vec<TreeNode>, id: &String) -> (found: bool)
    ensures
        found == has_id(nodes_view(old(nodes)@), id@),
        nodes_view(final(nodes)@) == selection_spec(nodes_view(old(nodes)@), id@),
    decreases old(nodes)@,
{
    let ghost ov = nodes_view(nodes@);
    proof {
        lemma_nodes_view(nodes@);
    }
    let mut i: usize = 0;
    while i < nodes.len()
        invariant
            i <= nodes.len(),
            nodes@.len() == old(nodes)@.len(),
            ov.len() == nodes@.len(),
            nodes_view(nodes@) == ov,
            ov == nodes_view(old(nodes)@),
            forall|j: int| 0 <= j < i ==> !holds(#[trigger] ov[j], id@),
            forall|j: int| i <= j < nodes@.len() ==> nodes@[j] == old(nodes)@[j],
        decreases nodes.len() - i,
    {
        let ghost pre = nodes@;
        proof {
            lemma_nodes_view(pre);
        }
        if nodes[i].id == *id {
            let state = match nodes[i].selection {
                NodeSelection::Unselected => NodeSelection::Selected,
                _ => NodeSelection::Unselected,
            };
            nodes[i].selection = state;
            set_all_selection(&mut nodes[i].children, state);
            proof {
                assert(nodes@ =~= pre.update(i as int, nodes@[i as int]));
                lemma_nodes_view_update(pre, i as int, nodes@[i as int]);
                lemma_first_holder(ov, id@, i as int);
            }
            return true;
        }
        let hit = toggle_in(&mut nodes[i].children, id);
        if hit {
            let summed = compute_selection_from_children(&nodes[i].children);
            nodes[i].selection = summed;
            proof {
                assert(nodes@ =~= pre.update(i as int, nodes@[i as int]));
                lemma_nodes_view_update(pre, i as int, nodes@[i as int]);
                lemma_first_holder(ov, id@, i as int);
            }
            return true;
        }
        proof {
            assert(nodes@ =~= pre.update(i as int, nodes@[i as int]));
            lemma_nodes_view_update(pre, i as int, nodes@[i as int]);
            assert(nodes_view(nodes@) =~= ov);
        }
        i += 1;
    }
    false
}

/// Toggles the selection state of the first node with `id`. Returns `true`
/// if there is such a node.
///
/// The new state of the toggled node is pushed down to every descendant,
/// and each ancestor takes the state that its children sum up to.
pub fn toggle_selection(nodes: &mut Vec<TreeNode>, id: &str) -> (found: bool)
    ensures
        found == has_id(nodes_view(old(nodes)@), id@),
        nodes_view(final(nodes)@) == selection_spec(nodes_view(old(nodes)@), id@),
{
    let wanted = id.to_owned();
    toggle_in(nodes, &wanted)
}

// ---------------------------------------------------------------------------
// Tree state
// ---------------------------------------------------------------------------

/// Persistent state of the producer tree.
#[derive(Debug)]
pub struct ProducerTreeState {
    pub nodes: Vec<TreeNode>,
    /// Index into the currently visible (flattened) rows.
    pub cursor: usize,
}

/// The model of the producer tree: the forest and the cursor row.
pub struct TreeModel {
    pub nodes: Seq<NodeView>,
    pub cursor: usize,
}

impl TreeModel {
    /// The visible rows.
    pub open spec fn visible(self) -> Seq<(usize, NodeView)> {
        rows(self.nodes, 0)
    }

    /// The id of the node on the cursor row, if the cursor is on a row.
    pub open spec fn cursor_id(self) -> Option<Seq<char>> {
        if self.cursor < self.visible().len() {
            Some(self.visible()[self.cursor as int].1.id)
        } else {
            None
        }
    }

    /// The tree with the cursor pulled back onto the last visible row, if it
    /// lies beyond it.
    pub open spec fn clamped(self) -> TreeModel {
        let last = if self.visible().len() > 0 {
            self.visible().len() - 1
        } else {
            0
        };
        if self.cursor > last {
            TreeModel { cursor: last as usize, ..self }
        } else {
            self
        }
    }

    /// The tree after one event.
    pub open spec fn step(self, ev: EventView) -> TreeModel {
        match ev {
            EventView::TreeNav(Direction::Up) => TreeModel {
                cursor: if self.cursor > 0 {
                    (self.cursor - 1) as usize
                } else {
                    0
                },
                ..self
            },
            EventView::TreeNav(Direction::Down) => if self.cursor + 1 < self.visible().len() {
                TreeModel { cursor: (self.cursor + 1) as usize, ..self }
            } else {
                self
            },
            EventView::TreeNav(Direction::Right) => match self.cursor_id() {
                Some(id) => TreeModel { nodes: expanded_spec(self.nodes, id, Some(true)), ..self },
                None => self,
            },
            EventView::TreeNav(Direction::Left) => match self.cursor_id() {
                Some(id) => (TreeModel {
                    nodes: expanded_spec(self.nodes, id, Some(false)),
                    ..self
                }).clamped(),
                None => self,
            },
            EventView::Enter => match self.cursor_id() {
                Some(id) => if is_leaf_spec(self.nodes, id) {
                    TreeModel { nodes: selection_spec(self.nodes, id), ..self }
                } else {
                    (TreeModel { nodes: expanded_spec(self.nodes, id, None), ..self }).clamped()
                },
                None => self,
            },
            EventView::Char(c) => if c == ' ' {
                match self.cursor_id() {
                    Some(id) => TreeModel { nodes: selection_spec(self.nodes, id), ..self },
                    None => self,
                }
            } else {
                self
            },
            _ => self,
        }
    }
}

impl ProducerTreeState {
    /// The model of this state.
    pub open spec fn model(&self) -> TreeModel {
        TreeModel { nodes: nodes_view(self.nodes@), cursor: self.cursor }
    }

    /// An empty tree.
    pub fn new() -> (r: ProducerTreeState)
        ensures
            r.model() == (TreeModel { nodes: Seq::empty(), cursor: 0 }),
    {
        ProducerTreeState { nodes: Vec::new(), cursor: 0 }
    }

    /// The id of the node at the cursor, if any.
    pub fn cursor_id(&self) -> (r: Option<String>)
        ensures
            crate::types::opt_view(r) == self.model().cursor_id(),
    {
        let rows = self.visible();
        if self.cursor < rows.len() {
            Some(rows[self.cursor].1.id.clone())
        } else {
            None
        }
    }

    /// Flattens the tree into `(depth, node)` rows, leaving out what lies
    /// under collapsed nodes.
    pub fn visible(&self) -> (r: Vec<(usize, &TreeNode)>)
        ensures
            rows_view(r@) == self.model().visible(),
            r@.len() == self.model().visible().len(),
    {
        let r = flatten(&self.nodes, 0);
        assert(rows_view(r@).len() == r@.len());
        r
    }

    /// Handles an event, changing the cursor or the tree as the module
    /// description says.
    pub fn handle(&mut self, event: &AppEvent)
        ensures
            final(self).model() == old(self).model().step(event@),
    {
        match event {
            AppEvent::TreeNav(Direction::Up) => {
                self.cursor = self.cursor.saturating_sub(1);
            },
            AppEvent::TreeNav(Direction::Down) => {
                let max: usize = self.visible().len().saturating_sub(1);
                if self.cursor < max {
                    self.cursor += 1;
                }
            },
            AppEvent::TreeNav(Direction::Right) => {
                if let Some(id) = self.cursor_id() {
                    set_expanded(&mut self.nodes, id.as_str(), true);
                }
            },
            AppEvent::Enter => {
                if let Some(id) = self.cursor_id() {
                    if is_leaf(&self.nodes, id.as_str()) {
                        toggle_selection(&mut self.nodes, id.as_str());
                    } else {
                        toggle_expanded(&mut self.nodes, id.as_str());
                        self.clamp_cursor();
                    }
                }
            },
            AppEvent::TreeNav(Direction::Left) => {
                if let Some(id) = self.cursor_id() {
                    set_expanded(&mut self.nodes, id.as_str(), false);
                    self.clamp_cursor();
                }
            },
            AppEvent::Char(c) => {
                if *c == ' ' {
                    if let Some(id) = self.cursor_id() {
                        toggle_selection(&mut self.nodes, id.as_str());
                    }
                }
            },
            _ => {},
        }
    }

    /// Pulls the cursor back onto the last visible row if it lies beyond it.
    pub fn clamp_cursor(&mut self)
        ensures
            final(self).model() == old(self).model().clamped(),
    {
        let max: usize = self.visible().len().saturating_sub(1);
        if self.cursor > max {
            self.cursor = max;
        }
    }
}

impl Default for ProducerTreeState {
    fn default() -> (r: ProducerTreeState)
        ensures
            r.model() == (TreeModel { nodes: Seq::empty(), cursor: 0 }),
    {
        ProducerTreeState::new()
    }
}

// ---------------------------------------------------------------------------
// Widget
// ---------------------------------------------------------------------------

/// The producer tree as it is drawn.
pub struct ProducerTree<'a> {
    pub state: &'a ProducerTreeState,
    pub focused: bool,
    pub theme: &'a Theme,
}

/// The marker in front of a label: blank for a leaf, a triangle that points
/// down for an expanded parent and one that points right for a collapsed
/// one.
pub open spec fn expand_marker(n: NodeView) -> Seq<char> {
    if n.children.len() == 0 {
        seq![' ', ' ']
    } else if n.expanded {
        seq!['\u{25BC}', ' ']
    } else {
        seq!['\u{25B6}', ' ']
    }
}

/// The marker behind a label: a check mark, a circle or a half circle.
pub open spec fn selection_marker(s: NodeSelection) -> Seq<char> {
    match s {
        NodeSelection::Selected => seq![' ', '\u{2713}'],
        NodeSelection::Unselected => seq![' ', '\u{25CB}'],
        NodeSelection::Partial => seq![' ', '\u{25D0}'],
    }
}

/// The text of one row: two blanks per level of depth, the expansion marker,
/// the label and the selection marker.
pub open spec fn row_text(depth: usize, n: NodeView) -> Seq<char> {
    repeated(' ', depth as nat) + repeated(' ', depth as nat) + expand_marker(n) + n.label
        + selection_marker(n.selection)
}

/// The texts of a list of rows, in order.
pub open spec fn rows_text(r: Seq<(usize, NodeView)>) -> Seq<Seq<char>> {
    Seq::new(r.len(), |i: int| row_text(r[i].0, r[i].1))
}

/// Builds the text of one row.
fn render_row(depth: usize, node: &TreeNode) -> (r: String)
    ensures
        r@ == row_text(depth, node_view(*node)),
{
    proof {
        lemma_nodes_view(node.children@);
    }
    let mut out: Vec<char> = Vec::new();
    push_repeated(&mut out, ' ', depth);
    push_repeated(&mut out, ' ', depth);
    if node.children.len() == 0 {
        out.push(' ');
    } else if node.expanded {
        out.push('\u{25BC}');
    } else {
        out.push('\u{25B6}');
    }
    out.push(' ');
    let ghost head = out@;
    assert(head =~= repeated(' ', depth as nat) + repeated(' ', depth as nat) + expand_marker(
        node_view(*node),
    ));
    push_str(&mut out, node.label.as_str());
    out.push(' ');
    match node.selection {
        NodeSelection::Selected => out.push('\u{2713}'),
        NodeSelection::Unselected => out.push('\u{25CB}'),
        NodeSelection::Partial => out.push('\u{25D0}'),
    }
    assert(out@ =~= row_text(depth, node_view(*node)));
    string_of(&out)
}

impl<'a> ProducerTree<'a> {
    /// The widget for a state, a focus flag and a theme.
    pub fn new(state: &'a ProducerTreeState, focused: bool, theme: &'a Theme) -> (r: Self)
        ensures
            r.state == state,
            r.focused == focused,
            r.theme == theme,
    {
        Self { state, focused, theme }
    }

    /// The title of the pane's block.
    pub fn title(&self) -> (r: String)
        ensures
            r@ == "Producers"@,
    {
        "Producers".to_owned()
    }

    /// The style of the pane's border: the focused or the unfocused one.
    pub fn border_style(&self) -> (r: Style)
        ensures
            r == if self.focused {
                self.theme.border_focused
            } else {
                self.theme.border_unfocused
            },
    {
        if self.focused {
            self.theme.border_focused
        } else {
            self.theme.border_unfocused
        }
    }

    /// The texts of the visible rows, top to bottom.
    pub fn items(&self) -> (r: Vec<String>)
        ensures
            strings_view(r@) == rows_text(self.state.model().visible()),
    {
        let rows = self.state.visible();
        let mut r: Vec<String> = Vec::new();
        let mut i: usize = 0;
        while i < rows.len()
            invariant
                i <= rows.len(),
                r@.len() == i,
                forall|j: int| 0 <= j < i ==> (#[trigger] r@[j])@ == row_text(
                    rows@[j].0,
                    node_view(*rows@[j].1),
                ),
            decreases rows.len() - i,
        {
            r.push(render_row(rows[i].0, rows[i].1));
            i += 1;
        }
        assert(strings_view(r@) =~= rows_text(rows_view(rows@)));
        r
    }

    /// The row that is highlighted: the cursor row.
    pub fn selected(&self) -> (r: Option<usize>)
        ensures
            r == Some(self.state.cursor),
    {
        Some(self.state.cursor)
    }
}

} // verus!
