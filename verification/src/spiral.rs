//! The spiral policy: alternate the split orientation of the focused window
//! by its aspect ratio, producing a spiral of splits over successive
//! insertions.

use vstd::prelude::*;

use crate::cmd::{Action, Clause, Selector};
use crate::node::{
    dfs, found_id, found_parent_of, found_ws_containing, found_ws_id, is_first_id_match,
    is_first_parent_match, is_first_ws_containing, is_floating_container_node,
    is_floating_window_node, is_resolved_ws, Node, TreeError, Workspace,
};
use crate::util::{should_skip_layout_of_workspace, skip_ws_name};

verus! {

/// The batch the spiral policy emits for a window it lays out: focus it,
/// then split vertically exactly when it is taller than wide.
pub open spec fn spiral_batch(n: Node) -> Seq<Clause> {
    seq![
        (Clause { sel: Some(Selector::ConId(n.id)), action: Action::Focus }),
        (Clause {
            sel: None,
            action: if n.rect.height > n.rect.width {
                Action::SplitV
            } else {
                Action::SplitH
            },
        }),
    ]
}

/// The spiral policy passes a node over without a command: floating nodes,
/// fullscreen nodes, and children of stacked or tabbed containers pick their
/// own split regime.
pub open spec fn spiral_passes_over(n: Node, p: Node) -> bool {
    ||| is_floating_window_node(n)
    ||| is_floating_container_node(n)
    ||| n.full_screen
    ||| p.layout == crate::node::ChildLayout::Stacked
    ||| p.layout == crate::node::ChildLayout::Tabbed
}

/// A node the spiral policy lays out before asking for its parent.
pub open spec fn spiral_needs_parent(n: Node) -> bool {
    !is_floating_window_node(n) && !is_floating_container_node(n) && !n.full_screen
}

/// Computes the spiral policy's answer to a focus event on the node with the
/// given id, against one tree and workspace-list snapshot.  An empty batch
/// means the policy stays silent.  A snapshot holding a node that matches no
/// classification fails the whole operation: protocol drift is fatal for
/// this code path.
pub fn spiral_cmd(tree: &Node, workspaces: &Vec<Workspace>, node_id: i64) -> (r: Result<
    Vec<Clause>,
    TreeError,
>)
    ensures
        (r == Err::<Vec<Clause>, TreeError>(TreeError::UnclassifiableNode))
            <==> !crate::node::all_classifiable(dfs(*tree)),
        match r {
            Ok(batch) => exists|n: Node|
                {
                    &&& #[trigger] is_first_id_match(dfs(*tree), node_id, n)
                    &&& exists|w: Workspace|
                        {
                            &&& #[trigger] is_resolved_ws(*tree, workspaces@, node_id, w)
                            &&& if skip_ws_name(w.name@) {
                                batch@.len() == 0
                            } else if !spiral_needs_parent(n) {
                                batch@.len() == 0
                            } else {
                                exists|p: Node|
                                    {
                                        &&& #[trigger] is_first_parent_match(dfs(*tree), n.id, p)
                                        &&& if spiral_passes_over(n, p) {
                                            batch@.len() == 0
                                        } else {
                                            batch@ == spiral_batch(n)
                                        }
                                    }
                            }
                        }
                },
            Err(TreeError::NodeNotFound) => forall|i: int|
                !(#[trigger] found_id(dfs(*tree), node_id, i)),
            Err(TreeError::NoParent) => exists|n: Node|
                {
                    &&& #[trigger] is_first_id_match(dfs(*tree), node_id, n)
                    &&& spiral_needs_parent(n)
                    &&& exists|w: Workspace|
                        #[trigger] is_resolved_ws(*tree, workspaces@, node_id, w) && !skip_ws_name(
                            w.name@,
                        )
                    &&& forall|i: int| !(#[trigger] found_parent_of(dfs(*tree), n.id, i))
                },
            Err(TreeError::NoWorkspaceForNode) => (exists|n: Node|
                #[trigger] is_first_id_match(dfs(*tree), node_id, n)) && (forall|i: int|
                !(#[trigger] found_ws_containing(dfs(*tree), node_id, i))),
            Err(TreeError::UnknownWorkspace) => (exists|n: Node|
                #[trigger] is_first_id_match(dfs(*tree), node_id, n)) && (exists|m: Node|
                #[trigger] is_first_ws_containing(dfs(*tree), node_id, m) && (forall|k: int|
                    !(#[trigger] found_ws_id(workspaces@, m.id, k)))),
            Err(TreeError::UnclassifiableNode) => true,
            Err(_) => false,
        },
{
    match tree.find_unclassifiable() {
        Some(_) => {
            return Err(TreeError::UnclassifiableNode);
        },
        None => {},
    };
    let node = match tree.find_by_id(node_id) {
        Some(n) => n,
        None => {
            return Err(TreeError::NodeNotFound);
        },
    };
    proof {
        let s = dfs(*tree);
        let i = choose|i: int|
            found_id(s, node_id, i) && *node == s[i] && (forall|j: int|
                0 <= j < i ==> !found_id(s, node_id, j));
        assert(found_id(s, node_id, i));
        assert(node.id == node_id);
        assert(is_first_id_match(s, node_id, *node));
    }
    let ws = match node.get_workspace(tree, workspaces) {
        Ok(w) => w,
        Err(e) => {
            return Err(e);
        },
    };
    if should_skip_layout_of_workspace(ws) {
        return Ok(Vec::new());
    }
    if node.is_floating_window() || node.is_floating_container() || node.is_full_screen() {
        return Ok(Vec::new());
    }
    let parent = match node.get_parent(tree) {
        Some(p) => p,
        None => {
            return Err(TreeError::NoParent);
        },
    };
    proof {
        assert(is_first_parent_match(dfs(*tree), node.id, *parent));
    }
    if parent.layout == crate::node::ChildLayout::Stacked || parent.layout
        == crate::node::ChildLayout::Tabbed {
        return Ok(Vec::new());
    }
    let mut batch: Vec<Clause> = Vec::new();
    batch.push(Clause { sel: Some(Selector::ConId(node.id)), action: Action::Focus });
    if node.rect.height > node.rect.width {
        batch.push(Clause { sel: None, action: Action::SplitV });
    } else {
        batch.push(Clause { sel: None, action: Action::SplitH });
    }
    proof {
        assert(batch@ =~= spiral_batch(*node));
    }
    Ok(batch)
}

} // verus!
