//! The relayout coordinator's command computations: migrate a workspace's
//! windows through the scratch workspace and back, so a new discipline can
//! lay them out afresh.  The waits between the steps, and the fresh tree
//! snapshots they need, stay with the caller.

use vstd::prelude::*;

use crate::cmd::{Action, Clause, Selector};
use crate::node::{
    dfs, found_focused_ws, found_output_with_ws, found_ws_num, is_first_focused_ws, windows_of,
    Node, TreeError, Workspace,
};
use crate::util::{persway_tmp_workspace, persway_tmp_ws_name};

verus! {

/// The ids of a window sequence.
pub open spec fn ids_of(s: Seq<Node>) -> Seq<i64> {
    s.map_values(|n: Node| n.id)
}

/// The eviction batch: move every window of the workspace to the scratch
/// workspace, switch to it, and pull it onto the workspace's output.
pub open spec fn is_eviction_batch(b: Seq<Clause>, ids: Seq<i64>, output_id: i64) -> bool {
    let tmp = persway_tmp_ws_name();
    &&& b.len() == ids.len() + 2
    &&& forall|i: int| 0 <= i < ids.len() ==> #[trigger] eviction_move_ok(b, ids, i)
    &&& b[ids.len() as int].sel is None
    &&& b[ids.len() as int].action matches Action::Workspace(n) && n@ == tmp
    &&& b[ids.len() as int + 1] == (Clause {
        sel: None,
        action: Action::MoveWorkspaceToOutput(output_id),
    })
}

/// One eviction move: window `i` is sent to the scratch workspace.
pub open spec fn eviction_move_ok(b: Seq<Clause>, ids: Seq<i64>, i: int) -> bool {
    &&& b[i].sel == Some(Selector::ConId(ids[i]))
    &&& b[i].action matches Action::MoveToWorkspace(n) && n@ == persway_tmp_ws_name()
}

/// `n` is the first output node owning a workspace with the given number.
pub open spec fn is_first_output_with_ws(s: Seq<Node>, num: i32, n: Node) -> bool {
    exists|i: int|
        #[trigger] found_output_with_ws(s, num, i) && n == s[i] && (forall|j: int|
            0 <= j < i ==> !found_output_with_ws(s, num, j))
}

/// `n` is the first workspace node with the given number.
pub open spec fn is_first_ws_num_node(s: Seq<Node>, num: i32, n: Node) -> bool {
    exists|i: int|
        #[trigger] found_ws_num(s, num, i) && n == s[i] && (forall|j: int|
            0 <= j < i ==> !found_ws_num(s, num, j))
}

/// Everything the relayout coordinator computes from the snapshot taken
/// before the migration.
#[derive(Debug)]
pub struct RelayoutPlan {
    /// The workspace's windows, in traversal order; they are reinserted in
    /// reverse order.
    pub window_ids: Vec<i64>,
    /// The batch that parks the windows on the scratch workspace.
    pub eviction: Vec<Clause>,
    /// The output owning the workspace.
    pub output_id: i64,
    /// The workspace node.
    pub ws_node_id: i64,
    /// The focused workspace before the migration, to restore afterwards.
    pub focused_ws_num: i32,
    pub focused_ws_name: String,
}

/// Computes the migration plan for the workspace with the given number.
/// A snapshot holding a node that matches no classification fails the
/// migration: protocol drift is fatal for this code path.
pub fn relayout_plan(tree: &Node, workspaces: &Vec<Workspace>, ws_num: i32) -> (r: Result<
    RelayoutPlan,
    TreeError,
>)
    ensures
        (r == Err::<RelayoutPlan, TreeError>(TreeError::UnclassifiableNode))
            <==> !crate::node::all_classifiable(dfs(*tree)),
        match r {
            Ok(plan) => exists|output: Node, wsnode: Node, f: Workspace|
                {
                    &&& #[trigger] is_first_output_with_ws(dfs(*tree), ws_num, output)
                    &&& #[trigger] is_first_ws_num_node(dfs(output), ws_num, wsnode)
                    &&& #[trigger] is_first_focused_ws(workspaces@, f)
                    &&& plan.output_id == output.id
                    &&& plan.ws_node_id == wsnode.id
                    &&& plan.focused_ws_num == f.num
                    &&& plan.focused_ws_name@ == f.name@
                    &&& plan.window_ids@ == ids_of(windows_of(wsnode))
                    &&& is_eviction_batch(plan.eviction@, plan.window_ids@, output.id)
                },
            Err(TreeError::NoOutputFound) => forall|i: int|
                !(#[trigger] found_output_with_ws(dfs(*tree), ws_num, i)),
            Err(TreeError::NoWorkspaceFound) => exists|output: Node|
                #[trigger] is_first_output_with_ws(dfs(*tree), ws_num, output) && (forall|i: int|
                    !(#[trigger] found_ws_num(dfs(output), ws_num, i))),
            // The output and workspace lookups decide first: this error only
            // comes once both have succeeded.
            Err(TreeError::NoFocusedWorkspace) => (exists|output: Node|
                #[trigger] is_first_output_with_ws(dfs(*tree), ws_num, output) && (exists|
                    wsnode: Node,
                | #[trigger] is_first_ws_num_node(dfs(output), ws_num, wsnode))) && (forall|k: int|
                !(#[trigger] found_focused_ws(workspaces@, k))),
            Err(TreeError::UnclassifiableNode) => true,
            Err(_) => false,
        },
{
    match tree.find_unclassifiable() {
        Some(_) => {
            return Err(TreeError::UnclassifiableNode);
        },
        None => {},
    };
    let output = match tree.find_output_with_ws_num(ws_num) {
        Some(o) => o,
        None => {
            return Err(TreeError::NoOutputFound);
        },
    };
    proof {
        assert(is_first_output_with_ws(dfs(*tree), ws_num, *output));
    }
    let wsnode = match output.find_ws_num_node(ws_num) {
        Some(w) => w,
        None => {
            return Err(TreeError::NoWorkspaceFound);
        },
    };
    proof {
        assert(is_first_ws_num_node(dfs(*output), ws_num, *wsnode));
    }
    let focused = match crate::node::get_focused_workspace(workspaces) {
        Ok(w) => w,
        Err(e) => {
            return Err(e);
        },
    };
    proof {
        assert(is_first_focused_ws(workspaces@, *focused));
    }
    let windows = wsnode.window_nodes();
    let mut window_ids: Vec<i64> = Vec::new();
    let mut eviction: Vec<Clause> = Vec::new();
    let mut i: usize = 0;
    let ghost ws_seq = windows_of(*wsnode);
    while i < windows.len()
        invariant
            crate::node::deref_seq(windows@) == ws_seq,
            i <= windows@.len(),
            window_ids@ == ids_of(ws_seq.subrange(0, i as int)),
            eviction@.len() == i,
            forall|k: int| 0 <= k < i ==> #[trigger] eviction_move_ok(
                eviction@,
                ids_of(ws_seq),
                k,
            ),
        decreases windows@.len() - i,
    {
        let w: &Node = windows[i];
        proof {
            assert(*w == crate::node::deref_seq(windows@)[i as int]);
        }
        let ghost e0 = eviction@;
        window_ids.push(w.id);
        eviction.push(
            Clause {
                sel: Some(Selector::ConId(w.id)),
                action: Action::MoveToWorkspace(persway_tmp_workspace()),
            },
        );
        proof {
            assert(window_ids@ =~= ids_of(ws_seq.subrange(0, i as int + 1)));
            assert forall|k: int| 0 <= k < i + 1 implies #[trigger] eviction_move_ok(
                eviction@,
                ids_of(ws_seq),
                k,
            ) by {
                if k < i {
                    assert(eviction_move_ok(e0, ids_of(ws_seq), k));
                    assert(eviction@[k] == e0[k]);
                }
            }
        }
        i += 1;
    }
    proof {
        assert(ws_seq.subrange(0, ws_seq.len() as int) =~= ws_seq);
    }
    let ghost e1 = eviction@;
    eviction.push(Clause { sel: None, action: Action::Workspace(persway_tmp_workspace()) });
    eviction.push(Clause { sel: None, action: Action::MoveWorkspaceToOutput(output.id) });
    proof {
        assert forall|k: int| 0 <= k < window_ids@.len() implies #[trigger] eviction_move_ok(
            eviction@,
            window_ids@,
            k,
        ) by {
            assert(eviction_move_ok(e1, ids_of(ws_seq), k));
            assert(eviction@[k] == e1[k]);
        }
        assert(is_eviction_batch(eviction@, window_ids@, output.id));
    }
    Ok(
        RelayoutPlan {
            window_ids,
            eviction,
            output_id: output.id,
            ws_node_id: wsnode.id,
            focused_ws_num: focused.num,
            focused_ws_name: focused.name.clone(),
        },
    )
}

/// The batch that brings one parked window back: move it to the workspace by
/// number and focus it.
pub fn reinsert_cmd(window_id: i64, ws_num: i32) -> (r: Vec<Clause>)
    ensures
        r@ == seq![
            (Clause {
                sel: Some(Selector::ConId(window_id)),
                action: Action::MoveToWorkspaceNum(ws_num),
            }),
            (Clause { sel: Some(Selector::ConId(window_id)), action: Action::Focus }),
        ],
{
    let mut batch: Vec<Clause> = Vec::new();
    batch.push(
        Clause { sel: Some(Selector::ConId(window_id)), action: Action::MoveToWorkspaceNum(
            ws_num,
        ) },
    );
    batch.push(Clause { sel: Some(Selector::ConId(window_id)), action: Action::Focus });
    proof {
        assert(batch@ =~= seq![
            (Clause {
                sel: Some(Selector::ConId(window_id)),
                action: Action::MoveToWorkspaceNum(ws_num),
            }),
            (Clause { sel: Some(Selector::ConId(window_id)), action: Action::Focus }),
        ]);
    }
    batch
}

/// The batch that restores the original focused workspace after the
/// migration: if focus drifted to another workspace, switch back and pull it
/// onto its output first; in any case give the workspace its original name
/// back.
pub fn relayout_restore_cmd(
    focused_before_num: i32,
    focused_before_name: &String,
    focused_after_num: i32,
    output_id: i64,
) -> (r: Vec<Clause>)
    ensures
        ({
            let rename = (Clause {
                sel: None,
                action: Action::RenameWorkspaceTo(*focused_before_name),
            });
            if focused_after_num != focused_before_num {
                r@ == seq![
                    (Clause { sel: None, action: Action::WorkspaceNum(focused_before_num) }),
                    (Clause { sel: None, action: Action::MoveWorkspaceToOutput(output_id) }),
                    rename,
                ]
            } else {
                r@ == seq![rename]
            }
        }),
{
    let mut batch: Vec<Clause> = Vec::new();
    if focused_after_num != focused_before_num {
        batch.push(Clause { sel: None, action: Action::WorkspaceNum(focused_before_num) });
        batch.push(Clause { sel: None, action: Action::MoveWorkspaceToOutput(output_id) });
    }
    batch.push(Clause { sel: None, action: Action::RenameWorkspaceTo(focused_before_name.clone()) });
    proof {
        if focused_after_num != focused_before_num {
            assert(batch@ =~= seq![
                (Clause { sel: None, action: Action::WorkspaceNum(focused_before_num) }),
                (Clause { sel: None, action: Action::MoveWorkspaceToOutput(output_id) }),
                (Clause { sel: None, action: Action::RenameWorkspaceTo(*focused_before_name) }),
            ]);
        } else {
            assert(batch@ =~= seq![
                (Clause { sel: None, action: Action::RenameWorkspaceTo(*focused_before_name) }),
            ]);
        }
    }
    batch
}

} // verus!
