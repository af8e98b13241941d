//! Tests of the producer tree: selection, expansion and the cursor.

use fml::widgets::producer_tree::{toggle_selection, NodeSelection, TreeNode};

/// Build a small tree: root -> [a (leaf), b (leaf), c (leaf)]
fn three_leaf_tree() -> Vec<TreeNode> {
    vec![TreeNode::new("root", "root").with_children(vec![
        TreeNode::new("a", "a"),
        TreeNode::new("b", "b"),
        TreeNode::new("c", "c"),
    ])]
}

fn find_sel(nodes: &[TreeNode], id: &str) -> NodeSelection {
    for n in nodes {
        if n.id == id {
            return n.selection;
        }
        if let Some(result) = find_sel_opt(&n.children, id) {
            return result;
        }
    }
    NodeSelection::Unselected
}

fn find_sel_opt(nodes: &[TreeNode], id: &str) -> Option<NodeSelection> {
    for n in nodes {
        if n.id == id {
            return Some(n.selection);
        }
        if let Some(r) = find_sel_opt(&n.children, id) {
            return Some(r);
        }
    }
    None
}

#[test]
fn toggling_leaf_selects_it() {
    let mut nodes = three_leaf_tree();
    toggle_selection(&mut nodes, "a");
    assert_eq!(find_sel(&nodes, "a"), NodeSelection::Selected);
    assert_eq!(find_sel(&nodes, "b"), NodeSelection::Unselected);
}

#[test]
fn toggling_leaf_makes_parent_partial() {
    let mut nodes = three_leaf_tree();
    toggle_selection(&mut nodes, "a");
    assert_eq!(find_sel(&nodes, "root"), NodeSelection::Partial);
}

#[test]
fn toggling_all_leaves_makes_parent_selected() {
    let mut nodes = three_leaf_tree();
    toggle_selection(&mut nodes, "a");
    toggle_selection(&mut nodes, "b");
    toggle_selection(&mut nodes, "c");
    assert_eq!(find_sel(&nodes, "root"), NodeSelection::Selected);
}

#[test]
fn toggling_parent_selects_all_children() {
    let mut nodes = three_leaf_tree();
    toggle_selection(&mut nodes, "root");
    assert_eq!(find_sel(&nodes, "root"), NodeSelection::Selected);
    assert_eq!(find_sel(&nodes, "a"), NodeSelection::Selected);
    assert_eq!(find_sel(&nodes, "b"), NodeSelection::Selected);
    assert_eq!(find_sel(&nodes, "c"), NodeSelection::Selected);
}

#[test]
fn toggling_selected_parent_deselects_all_children() {
    let mut nodes = three_leaf_tree();
    toggle_selection(&mut nodes, "root"); // -> Selected
    toggle_selection(&mut nodes, "root"); // -> Unselected
    assert_eq!(find_sel(&nodes, "root"), NodeSelection::Unselected);
    assert_eq!(find_sel(&nodes, "a"), NodeSelection::Unselected);
    assert_eq!(find_sel(&nodes, "b"), NodeSelection::Unselected);
}

#[test]
fn partial_parent_toggle_clears_all() {
    let mut nodes = three_leaf_tree();
    toggle_selection(&mut nodes, "a"); // root -> Partial
    toggle_selection(&mut nodes, "root"); // Partial -> Unselected, children cleared
    assert_eq!(find_sel(&nodes, "root"), NodeSelection::Unselected);
    assert_eq!(find_sel(&nodes, "a"), NodeSelection::Unselected);
}

#[test]
fn deselecting_last_child_makes_parent_unselected() {
    let mut nodes = three_leaf_tree();
    toggle_selection(&mut nodes, "a");
    toggle_selection(&mut nodes, "a"); // back to unselected
    assert_eq!(find_sel(&nodes, "root"), NodeSelection::Unselected);
}
