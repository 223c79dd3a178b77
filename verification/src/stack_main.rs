//! The stack-main policy: one main window beside a stack of the rest.
//!
//! State is implicit in the tree shape plus marks.  Insertion, close and
//! move repair the shape; the auxiliary operations (focus cycling, rotation,
//! swapping the visible stack window into main) look the stack up by its
//! mark and no-op when the mark is absent.  Every operation fails on a
//! snapshot holding a node that matches no classification: protocol drift
//! is fatal for the code path that meets it.

use vstd::prelude::*;

use crate::cmd::{Action, Clause, Selector};
use crate::layout::StackLayout;
use crate::node::{
    dfs, first_from, found_id, found_ws_containing, found_ws_id, is_first_id_match,
    is_first_ws_containing, is_resolved_ws, is_window_node, tree_contains_id,
    Node, TreeError, Workspace,
};
use crate::strutil::{append_dec_i64, dec_int};
use crate::util::{should_skip_layout_of_workspace, skip_ws_name};

verus! {

/// The mark naming a workspace's main window.
pub open spec fn main_mark_text(id: int) -> Seq<char> {
    "_main_"@ + dec_int(id)
}

/// The mark naming a workspace's stack container.
pub open spec fn stack_mark_text(id: int) -> Seq<char> {
    "_stack_"@ + dec_int(id)
}

/// The main-window mark for the given workspace id.
pub fn main_mark(id: i64) -> (r: String)
    ensures
        r@ == main_mark_text(id as int),
{
    let mut s = String::from_str("_main_");
    append_dec_i64(&mut s, id);
    proof {
        assert(s@ =~= main_mark_text(id as int));
    }
    s
}

/// The stack mark for the given id.
pub fn stack_mark(id: i64) -> (r: String)
    ensures
        r@ == stack_mark_text(id as int),
{
    let mut s = String::from_str("_stack_");
    append_dec_i64(&mut s, id);
    proof {
        assert(s@ =~= stack_mark_text(id as int));
    }
    s
}

/// The batch for the first window of a workspace: focus it and split
/// horizontally, creating the main/stack axis.
pub open spec fn new_first_batch(event_id: i64) -> Seq<Clause> {
    seq![
        (Clause { sel: Some(Selector::ConId(event_id)), action: Action::Focus }),
        (Clause { sel: None, action: Action::SplitH }),
    ]
}

/// The clauses that give the stack container its configured sub-layout.
pub open spec fn stack_layout_clauses(sl: StackLayout) -> Seq<Clause> {
    match sl {
        StackLayout::Tabbed => seq![
            (Clause { sel: None, action: Action::SplitV }),
            (Clause { sel: None, action: Action::LayoutTabbed }),
        ],
        StackLayout::Stacked => seq![
            (Clause { sel: None, action: Action::SplitV }),
            (Clause { sel: None, action: Action::LayoutStacking }),
        ],
        StackLayout::Tiled => seq![(Clause { sel: None, action: Action::SplitV })],
    }
}

/// The batch that converts the displaced first window into the stack: focus
/// it, split vertically, give it the stack sub-layout, resize it to the
/// stack's share of the width, and refocus the main window.
pub open spec fn new_convert_batch(stack_id: i64, main_id: i64, size: u8, sl: StackLayout) -> Seq<
    Clause,
> {
    seq![(Clause { sel: Some(Selector::ConId(stack_id)), action: Action::Focus })]
        + stack_layout_clauses(sl) + seq![
        (Clause { sel: None, action: Action::ResizeWidth((100 - size) as u8) }),
        (Clause { sel: Some(Selector::ConId(main_id)), action: Action::Focus }),
    ]
}

/// The batch that swaps a window newly inserted inside the stack with the
/// current main, making the newest window the main.
pub open spec fn new_swap_batch(main_id: i64, event_id: i64) -> Seq<Clause> {
    seq![
        (Clause { sel: Some(Selector::ConId(main_id)), action: Action::Focus }),
        (Clause { sel: None, action: Action::SwapWithId(event_id) }),
        (Clause { sel: Some(Selector::ConId(event_id)), action: Action::Focus }),
    ]
}

/// The do-nothing batch for an insertion that touched neither main nor
/// stack.
pub open spec fn is_new_nop_batch(b: Seq<Clause>) -> bool {
    &&& b.len() == 1
    &&& b[0].sel is None
    &&& b[0].action matches Action::Nop(c) && c@ == "event container not in stack"@
}

/// The batch for an insertion beside an existing stack: tag the stack with a
/// transient mark, move the inserted window into it through the mark, drop
/// the mark, then swap the inserted window with the current main and focus
/// it.
pub open spec fn is_new_third_batch(
    b: Seq<Clause>,
    stack_id: i64,
    main_id: i64,
    event_id: i64,
) -> bool {
    let sm = stack_mark_text(stack_id as int);
    &&& b.len() == 7
    &&& b[0].sel == Some(Selector::ConId(stack_id))
    &&& b[0].action matches Action::MarkAdd(m) && m@ == sm
    &&& b[1] == (Clause { sel: Some(Selector::ConId(event_id)), action: Action::Focus })
    &&& b[2].sel is None
    &&& b[2].action matches Action::MoveToMark(m) && m@ == sm
    &&& b[3].sel matches Some(Selector::ConMark(m)) && m@ == sm
    &&& b[3].action matches Action::Unmark(m) && m@ == sm
    &&& b[4] == (Clause { sel: Some(Selector::ConId(main_id)), action: Action::Focus })
    &&& b[5] == (Clause { sel: None, action: Action::SwapWithId(event_id) })
    &&& b[6] == (Clause { sel: Some(Selector::ConId(event_id)), action: Action::Focus })
}

/// A window among the workspace's later children that is not the event's
/// node: the current main.
pub open spec fn main_candidate(event_id: i64) -> spec_fn(Node) -> bool {
    |m: Node| is_window_node(m) && m.id != event_id
}

/// What the insertion handler answers on a workspace tree, keyed by the
/// workspace's child count at the time of the event.
pub open spec fn on_new_matches(
    wst: Node,
    event_id: i64,
    size: u8,
    sl: StackLayout,
    r: Result<Seq<Clause>, TreeError>,
) -> bool {
    let k = wst.nodes@.len();
    if k == 1 {
        r == Ok::<Seq<Clause>, TreeError>(new_first_batch(event_id))
    } else if k == 2 {
        let stack = wst.nodes@[0];
        let main = wst.nodes@[1];
        if is_window_node(stack) {
            r == Ok::<Seq<Clause>, TreeError>(new_convert_batch(stack.id, main.id, size, sl))
        } else if tree_contains_id(stack, event_id) {
            r == Ok::<Seq<Clause>, TreeError>(new_swap_batch(main.id, event_id))
        } else {
            r matches Ok(b) && is_new_nop_batch(b)
        }
    } else if k == 3 {
        let stack = wst.nodes@[0];
        match first_from(wst.nodes@, main_candidate(event_id), 1) {
            Some(mi) => r matches Ok(b) && is_new_third_batch(
                b,
                stack.id,
                wst.nodes@[mi].id,
                event_id,
            ),
            None => r == Err::<Seq<Clause>, TreeError>(TreeError::MainNotFound),
        }
    } else {
        r == Ok::<Seq<Clause>, TreeError>(Seq::<Clause>::empty())
    }
}

/// The index, among a workspace's later children, of the first window other
/// than the event's node: the current main window.
fn find_main_from(nodes: &Vec<Node>, event_id: i64) -> (r: Option<usize>)
    requires
        nodes@.len() >= 1,
    ensures
        match r {
            Some(mi) => 1 <= mi < nodes@.len() && first_from(nodes@, main_candidate(event_id), 1)
                == Some(mi as int),
            None => first_from(nodes@, main_candidate(event_id), 1) is None,
        },
{
    let mut mi: usize = 1;
    while mi < nodes.len()
        invariant
            1 <= mi <= nodes@.len(),
            first_from(nodes@, main_candidate(event_id), 1) == first_from(
                nodes@,
                main_candidate(event_id),
                mi as int,
            ),
        decreases nodes@.len() - mi,
    {
        let c = &nodes[mi];
        if c.is_window() && c.id != event_id {
            proof {
                assert(main_candidate(event_id)(nodes@[mi as int]));
            }
            return Some(mi);
        }
        proof {
            assert(!main_candidate(event_id)(nodes@[mi as int]));
        }
        mi += 1;
    }
    None
}

/// Computes the stack-main policy's answer to a new window with the given
/// id, against one tree and workspace-list snapshot.  An empty batch means
/// the policy stays silent.
pub fn on_new_window(
    tree: &Node,
    workspaces: &Vec<Workspace>,
    node_id: i64,
    size: u8,
    stack_layout: StackLayout,
) -> (r: Result<Vec<Clause>, TreeError>)
    requires
        size <= 100,
    ensures
        (r == Err::<Vec<Clause>, TreeError>(TreeError::UnclassifiableNode))
            <==> !crate::node::all_classifiable(dfs(*tree)),
        match r {
            Ok(batch) => exists|n: Node|
                {
                    &&& #[trigger] is_first_id_match(dfs(*tree), node_id, n)
                    &&& exists|w: Workspace|
                        {
                            &&& #[trigger] is_resolved_ws(*tree, workspaces@, node_id, w)
                            &&& if skip_ws_name(w.name@) {
                                batch@.len() == 0
                            } else {
                                exists|wst: Node|
                                    #[trigger] is_first_id_match(dfs(*tree), w.id, wst)
                                        && on_new_matches(
                                        wst,
                                        node_id,
                                        size,
                                        stack_layout,
                                        Ok(batch@),
                                    )
                            }
                        }
                },
            Err(TreeError::NodeNotFound) => forall|i: int|
                !(#[trigger] found_id(dfs(*tree), node_id, i)),
            Err(TreeError::NoWorkspaceForNode) => forall|i: int|
                !(#[trigger] found_ws_containing(dfs(*tree), node_id, i)),
            Err(TreeError::UnknownWorkspace) => exists|m: Node|
                #[trigger] is_first_ws_containing(dfs(*tree), node_id, m) && (forall|k: int|
                    !(#[trigger] found_ws_id(workspaces@, m.id, k))),
            Err(TreeError::NoWorkspaceFound) => exists|w: Workspace|
                #[trigger] is_resolved_ws(*tree, workspaces@, node_id, w) && !skip_ws_name(w.name@)
                    && (forall|i: int| !(#[trigger] found_id(dfs(*tree), w.id, i))),
            Err(TreeError::MainNotFound) => exists|w: Workspace|
                {
                    &&& #[trigger] is_resolved_ws(*tree, workspaces@, node_id, w)
                    &&& !skip_ws_name(w.name@)
                    &&& exists|wst: Node|
                        #[trigger] is_first_id_match(dfs(*tree), w.id, wst) && on_new_matches(
                            wst,
                            node_id,
                            size,
                            stack_layout,
                            Err(TreeError::MainNotFound),
                        )
                },
            Err(TreeError::UnclassifiableNode) => true,
            Err(_) => false,
        },
{
    match tree.find_unclassifiable() {
        Some(_) => {
            return Err(TreeError::UnclassifiableNode);
        },
        None => {},
    };
    let node = match tree.find_by_id(node_id) {
        Some(n) => n,
        None => {
            return Err(TreeError::NodeNotFound);
        },
    };
    proof {
        let s = dfs(*tree);
        let i = choose|i: int|
            found_id(s, node_id, i) && *node == s[i] && (forall|j: int|
                0 <= j < i ==> !found_id(s, node_id, j));
        assert(found_id(s, node_id, i));
        assert(node.id == node_id);
        assert(is_first_id_match(s, node_id, *node));
    }
    let ws = match node.get_workspace(tree, workspaces) {
        Ok(w) => w,
        Err(e) => {
            return Err(e);
        },
    };
    if should_skip_layout_of_workspace(ws) {
        return Ok(Vec::new());
    }
    let wstree = match tree.find_by_id(ws.id) {
        Some(t) => t,
        None => {
            return Err(TreeError::NoWorkspaceFound);
        },
    };
    proof {
        let s = dfs(*tree);
        let i = choose|i: int|
            found_id(s, ws.id, i) && *wstree == s[i] && (forall|j: int|
                0 <= j < i ==> !found_id(s, ws.id, j));
        assert(found_id(s, ws.id, i));
        assert(is_first_id_match(s, ws.id, *wstree));
    }
    let k = wstree.nodes.len();
    if k == 1 {
        let mut batch: Vec<Clause> = Vec::new();
        batch.push(Clause { sel: Some(Selector::ConId(node_id)), action: Action::Focus });
        batch.push(Clause { sel: None, action: Action::SplitH });
        proof {
            assert(batch@ =~= new_first_batch(node_id));
        }
        Ok(batch)
    } else if k == 2 {
        let stack = &wstree.nodes[0];
        let main = &wstree.nodes[1];
        if stack.is_window() {
            let mut batch: Vec<Clause> = Vec::new();
            batch.push(Clause { sel: Some(Selector::ConId(stack.id)), action: Action::Focus });
            batch.push(Clause { sel: None, action: Action::SplitV });
            match stack_layout {
                StackLayout::Tabbed => batch.push(
                    Clause { sel: None, action: Action::LayoutTabbed },
                ),
                StackLayout::Stacked => batch.push(
                    Clause { sel: None, action: Action::LayoutStacking },
                ),
                StackLayout::Tiled => {},
            }
            batch.push(Clause { sel: None, action: Action::ResizeWidth(100 - size) });
            batch.push(Clause { sel: Some(Selector::ConId(main.id)), action: Action::Focus });
            proof {
                assert(batch@ =~= new_convert_batch(stack.id, main.id, size, stack_layout));
            }
            Ok(batch)
        } else if stack.contains_id(node_id) {
            let mut batch: Vec<Clause> = Vec::new();
            batch.push(Clause { sel: Some(Selector::ConId(main.id)), action: Action::Focus });
            batch.push(Clause { sel: None, action: Action::SwapWithId(node_id) });
            batch.push(Clause { sel: Some(Selector::ConId(node_id)), action: Action::Focus });
            proof {
                assert(batch@ =~= new_swap_batch(main.id, node_id));
            }
            Ok(batch)
        } else {
            let mut batch: Vec<Clause> = Vec::new();
            batch.push(
                Clause {
                    sel: None,
                    action: Action::Nop(String::from_str("event container not in stack")),
                },
            );
            Ok(batch)
        }
    } else if k == 3 {
        let stack = &wstree.nodes[0];
        let mi = match find_main_from(&wstree.nodes, node_id) {
            Some(mi) => mi,
            None => {
                return Err(TreeError::MainNotFound);
            },
        };
        let main_id = wstree.nodes[mi].id;
        let sm = stack_mark(stack.id);
        let sm2 = sm.clone();
        let sm3 = sm.clone();
        let sm4 = sm.clone();
        let mut batch: Vec<Clause> = Vec::new();
        batch.push(Clause { sel: Some(Selector::ConId(stack.id)), action: Action::MarkAdd(sm) });
        batch.push(Clause { sel: Some(Selector::ConId(node_id)), action: Action::Focus });
        batch.push(Clause { sel: None, action: Action::MoveToMark(sm2) });
        batch.push(Clause { sel: Some(Selector::ConMark(sm3)), action: Action::Unmark(sm4) });
        batch.push(Clause { sel: Some(Selector::ConId(main_id)), action: Action::Focus });
        batch.push(Clause { sel: None, action: Action::SwapWithId(node_id) });
        batch.push(Clause { sel: Some(Selector::ConId(node_id)), action: Action::Focus });
        proof {
            assert(is_new_third_batch(batch@, stack.id, main_id, node_id));
        }
        Ok(batch)
    } else {
        let batch: Vec<Clause> = Vec::new();
        proof {
            assert(batch@ =~= Seq::<Clause>::empty());
        }
        Ok(batch)
    }
}

/// A focused window.
pub open spec fn focused_window_pred() -> spec_fn(Node) -> bool {
    |m: Node| is_window_node(m) && m.focused
}

/// A visible node.
pub open spec fn visible_pred() -> spec_fn(Node) -> bool {
    |m: Node| m.visible
}

/// The stack leaf a close repairs around: the focused window of the stack's
/// subtree, or failing that its first visible node.
pub open spec fn close_current(stack: Node) -> Option<Node> {
    match first_from(dfs(stack), focused_window_pred(), 0) {
        Some(i) => Some(dfs(stack)[i]),
        None => match first_from(dfs(stack), visible_pred(), 0) {
            Some(i) => Some(dfs(stack)[i]),
            None => None,
        },
    }
}

/// The batch that collapses a one-leaf stack into a plain split.
pub open spec fn close_collapse_batch(current_id: i64) -> Seq<Clause> {
    seq![
        (Clause { sel: Some(Selector::ConId(current_id)), action: Action::Focus }),
        (Clause { sel: None, action: Action::LayoutSplitH }),
        (Clause { sel: None, action: Action::MoveUp }),
    ]
}

/// The batch that reshapes the remaining stack after a close: move the
/// current leaf back to the main position and give it the main's share of
/// the width.
pub open spec fn close_repair_batch(current_id: i64, size: u8) -> Seq<Clause> {
    seq![
        (Clause { sel: Some(Selector::ConId(current_id)), action: Action::Focus }),
        (Clause { sel: None, action: Action::MoveRight }),
        (Clause { sel: None, action: Action::ResizeWidth(size) }),
    ]
}

/// What the close handler answers on a workspace tree: repair only when
/// exactly one sibling remains and it is not the closed node itself;
/// collapse when that sibling holds the last window, reshape otherwise.
pub open spec fn on_close_matches(
    wst: Node,
    event_id: i64,
    size: u8,
    r: Result<Seq<Clause>, TreeError>,
) -> bool {
    if wst.nodes@.len() == 1 && wst.nodes@[0].id != event_id {
        let stack = wst.nodes@[0];
        match close_current(stack) {
            Some(c) => if crate::node::windows_of(wst).len() == 1 {
                r == Ok::<Seq<Clause>, TreeError>(close_collapse_batch(c.id))
            } else {
                r == Ok::<Seq<Clause>, TreeError>(close_repair_batch(c.id, size))
            },
            None => r == Err::<Seq<Clause>, TreeError>(TreeError::NoVisibleNode),
        }
    } else {
        r == Ok::<Seq<Clause>, TreeError>(Seq::<Clause>::empty())
    }
}

/// The stack leaf a close repairs around, as the executable query.
fn find_close_current<'a>(stack: &'a Node) -> (r: Option<&'a Node>)
    ensures
        match r {
            Some(m) => close_current(*stack) == Some(*m),
            None => close_current(*stack) is None,
        },
{
    match stack.find_focused_window() {
        Some(m) => {
            proof {
                let s = dfs(*stack);
                let i = choose|i: int|
                    crate::node::found_focused_window(s, i) && *m == s[i] && (forall|j: int|
                        0 <= j < i ==> !crate::node::found_focused_window(s, j));
                assert(crate::node::found_focused_window(s, i));
                assert(focused_window_pred()(s[i]));
                assert forall|j: int| 0 <= j < i implies !(#[trigger] focused_window_pred()(
                    s[j],
                )) by {
                    assert(!crate::node::found_focused_window(s, j));
                }
                crate::node::lemma_first_from_unique(s, focused_window_pred(), i);
            }
            Some(m)
        },
        None => {
            proof {
                let s = dfs(*stack);
                assert forall|j: int| 0 <= j < s.len() implies !(#[trigger] focused_window_pred()(
                    s[j],
                )) by {
                    assert(!crate::node::found_focused_window(s, j));
                }
                crate::node::lemma_first_from_none(s, focused_window_pred());
            }
            match stack.find_visible() {
                Some(m) => {
                    proof {
                        let s = dfs(*stack);
                        let i = choose|i: int|
                            crate::node::found_visible(s, i) && *m == s[i] && (forall|j: int|
                                0 <= j < i ==> !crate::node::found_visible(s, j));
                        assert(crate::node::found_visible(s, i));
                        assert(visible_pred()(s[i]));
                        assert forall|j: int| 0 <= j < i implies !(#[trigger] visible_pred()(
                            s[j],
                        )) by {
                            assert(!crate::node::found_visible(s, j));
                        }
                        crate::node::lemma_first_from_unique(s, visible_pred(), i);
                    }
                    Some(m)
                },
                None => {
                    proof {
                        let s = dfs(*stack);
                        assert forall|j: int| 0 <= j < s.len() implies !(#[trigger] visible_pred()(
                            s[j],
                        )) by {
                            assert(!crate::node::found_visible(s, j));
                        }
                        crate::node::lemma_first_from_none(s, visible_pred());
                    }
                    None
                },
            }
        },
    }
}

/// Computes the stack-main policy's answer to a closed window, against one
/// tree and workspace-list snapshot.  An empty batch means the policy stays
/// silent.
pub fn on_close_window(tree: &Node, workspaces: &Vec<Workspace>, event_id: i64, size: u8) -> (r:
    Result<Vec<Clause>, TreeError>)
    ensures
        (r == Err::<Vec<Clause>, TreeError>(TreeError::UnclassifiableNode))
            <==> !crate::node::all_classifiable(dfs(*tree)),
        match r {
            Ok(batch) => exists|w: Workspace|
                {
                    &&& #[trigger] crate::node::is_first_focused_ws(workspaces@, w)
                    &&& if skip_ws_name(w.name@) {
                        batch@.len() == 0
                    } else {
                        exists|wst: Node|
                            #[trigger] is_first_id_match(dfs(*tree), w.id, wst) && on_close_matches(
                                wst,
                                event_id,
                                size,
                                Ok(batch@),
                            )
                    }
                },
            Err(TreeError::NoFocusedWorkspace) => forall|k: int|
                !(#[trigger] crate::node::found_focused_ws(workspaces@, k)),
            Err(TreeError::NoWorkspaceFound) => exists|w: Workspace|
                #[trigger] crate::node::is_first_focused_ws(workspaces@, w) && !skip_ws_name(
                    w.name@,
                ) && (forall|i: int| !(#[trigger] found_id(dfs(*tree), w.id, i))),
            Err(TreeError::NoVisibleNode) => exists|w: Workspace|
                {
                    &&& #[trigger] crate::node::is_first_focused_ws(workspaces@, w)
                    &&& !skip_ws_name(w.name@)
                    &&& exists|wst: Node|
                        #[trigger] is_first_id_match(dfs(*tree), w.id, wst) && on_close_matches(
                            wst,
                            event_id,
                            size,
                            Err(TreeError::NoVisibleNode),
                        )
                },
            Err(TreeError::UnclassifiableNode) => true,
            Err(_) => false,
        },
{
    match tree.find_unclassifiable() {
        Some(_) => {
            return Err(TreeError::UnclassifiableNode);
        },
        None => {},
    };
    let ws = match crate::node::get_focused_workspace(workspaces) {
        Ok(w) => w,
        Err(e) => {
            return Err(e);
        },
    };
    proof {
        assert(crate::node::is_first_focused_ws(workspaces@, *ws));
    }
    if should_skip_layout_of_workspace(ws) {
        return Ok(Vec::new());
    }
    let wstree = match tree.find_by_id(ws.id) {
        Some(t) => t,
        None => {
            return Err(TreeError::NoWorkspaceFound);
        },
    };
    proof {
        assert(is_first_id_match(dfs(*tree), ws.id, *wstree));
    }
    if wstree.nodes.len() == 1 {
        let stack = &wstree.nodes[0];
        if stack.id != event_id {
            let current = match find_close_current(stack) {
                Some(c) => c,
                None => {
                    return Err(TreeError::NoVisibleNode);
                },
            };
            let windows = wstree.window_nodes();
            let mut batch: Vec<Clause> = Vec::new();
            if windows.len() == 1 {
                batch.push(
                    Clause { sel: Some(Selector::ConId(current.id)), action: Action::Focus },
                );
                batch.push(Clause { sel: None, action: Action::LayoutSplitH });
                batch.push(Clause { sel: None, action: Action::MoveUp });
                proof {
                    assert(batch@ =~= close_collapse_batch(current.id));
                }
            } else {
                batch.push(
                    Clause { sel: Some(Selector::ConId(current.id)), action: Action::Focus },
                );
                batch.push(Clause { sel: None, action: Action::MoveRight });
                batch.push(Clause { sel: None, action: Action::ResizeWidth(size) });
                proof {
                    assert(batch@ =~= close_repair_batch(current.id, size));
                }
            }
            Ok(batch)
        } else {
            let batch: Vec<Clause> = Vec::new();
            proof {
                assert(batch@ =~= Seq::<Clause>::empty());
            }
            Ok(batch)
        }
    } else {
        let batch: Vec<Clause> = Vec::new();
        proof {
            assert(batch@ =~= Seq::<Clause>::empty());
        }
        Ok(batch)
    }
}

/// How a move event is handled: as an insertion in place, as an insertion
/// into the destination followed by a repair of the source, as a repair
/// alone, or not at all.
#[derive(Clone, Copy, Debug, PartialEq, Eq, Structural)]
pub enum MoveDisposition {
    /// Nothing to do: the node is gone or its workspace is left alone.
    Skip,
    /// The move stayed within the focused workspace: treat it as a new
    /// window there.
    Insert,
    /// The node's workspace cannot be resolved: repair the source workspace
    /// as after a close.
    RepairSource,
    /// The move crossed workspaces: insert into the destination, then repair
    /// the source.
    InsertThenRepair,
}

/// Decides how a move event is handled, against one tree and workspace-list
/// snapshot.  The insertion and the repair run against fresh snapshots.
pub fn on_move_window_disposition(tree: &Node, workspaces: &Vec<Workspace>, event_id: i64) -> (r:
    Result<MoveDisposition, TreeError>)
    ensures
        (r == Err::<MoveDisposition, TreeError>(TreeError::UnclassifiableNode))
            <==> !crate::node::all_classifiable(dfs(*tree)),
        match r {
            Ok(d) => match d {
                MoveDisposition::Skip => (forall|i: int|
                    !(#[trigger] found_id(dfs(*tree), event_id, i))) || (exists|w: Workspace|
                    #[trigger] is_resolved_ws(*tree, workspaces@, event_id, w) && skip_ws_name(
                        w.name@,
                    )),
                MoveDisposition::RepairSource => (forall|i: int|
                    !(#[trigger] found_ws_containing(dfs(*tree), event_id, i))) || (exists|m: Node|
                    #[trigger] is_first_ws_containing(dfs(*tree), event_id, m) && (forall|k: int|
                        !(#[trigger] found_ws_id(workspaces@, m.id, k)))),
                MoveDisposition::Insert => exists|w: Workspace, f: Workspace|
                    {
                        &&& #[trigger] is_resolved_ws(*tree, workspaces@, event_id, w)
                        &&& #[trigger] crate::node::is_first_focused_ws(workspaces@, f)
                        &&& !skip_ws_name(w.name@)
                        &&& w.id == f.id
                    },
                MoveDisposition::InsertThenRepair => exists|w: Workspace, f: Workspace|
                    {
                        &&& #[trigger] is_resolved_ws(*tree, workspaces@, event_id, w)
                        &&& #[trigger] crate::node::is_first_focused_ws(workspaces@, f)
                        &&& !skip_ws_name(w.name@)
                        &&& w.id != f.id
                    },
            },
            Err(TreeError::NoFocusedWorkspace) => (exists|w: Workspace|
                #[trigger] is_resolved_ws(*tree, workspaces@, event_id, w) && !skip_ws_name(
                    w.name@,
                )) && (forall|k: int| !(#[trigger] crate::node::found_focused_ws(workspaces@, k))),
            Err(TreeError::UnclassifiableNode) => true,
            Err(_) => false,
        },
{
    match tree.find_unclassifiable() {
        Some(_) => {
            return Err(TreeError::UnclassifiableNode);
        },
        None => {},
    };
    let node = match tree.find_by_id(event_id) {
        Some(n) => n,
        None => {
            return Ok(MoveDisposition::Skip);
        },
    };
    proof {
        let s = dfs(*tree);
        let i = choose|i: int|
            found_id(s, event_id, i) && *node == s[i] && (forall|j: int|
                0 <= j < i ==> !found_id(s, event_id, j));
        assert(found_id(s, event_id, i));
        assert(node.id == event_id);
    }
    let ws = match node.get_workspace(tree, workspaces) {
        Ok(w) => w,
        Err(_) => {
            return Ok(MoveDisposition::RepairSource);
        },
    };
    if should_skip_layout_of_workspace(ws) {
        return Ok(MoveDisposition::Skip);
    }
    let focused = match crate::node::get_focused_workspace(workspaces) {
        Ok(w) => w,
        Err(e) => {
            return Err(e);
        },
    };
    proof {
        assert(crate::node::is_first_focused_ws(workspaces@, *focused));
    }
    if ws.id == focused.id {
        Ok(MoveDisposition::Insert)
    } else {
        Ok(MoveDisposition::InsertThenRepair)
    }
}

/// A node with the given id.
pub open spec fn child_with_id(id: i64) -> spec_fn(Node) -> bool {
    |m: Node| m.id == id
}

/// The cyclic successor (or, reversed, predecessor) of position `j` among
/// `len` stack children.
pub open spec fn cyclic_index(len: int, j: int, reverse: bool) -> int {
    if reverse {
        if j == 0 {
            len - 1
        } else {
            j - 1
        }
    } else {
        if j == len - 1 {
            0
        } else {
            j + 1
        }
    }
}

/// The batch a focus-cycling operation emits: focus the target stack child,
/// then hand focus back to the main mark.
pub open spec fn is_stack_focus_batch(b: Seq<Clause>, target_id: i64, ws_id: i64) -> bool {
    let mm = main_mark_text(ws_id as int);
    &&& b.len() == 2
    &&& b[0] == (Clause { sel: Some(Selector::ConId(target_id)), action: Action::Focus })
    &&& b[1].sel matches Some(Selector::ConMark(m)) && m@ == mm
    &&& b[1].action is Focus
}

/// What a focus-cycling operation answers on a marked stack: nothing for an
/// empty stack; otherwise it needs a visible stack window, finds it among the
/// stack's children, and focuses that child's cyclic neighbour.
pub open spec fn stack_focus_on_stack_matches(
    stack: Node,
    ws_id: i64,
    reverse: bool,
    r: Result<Seq<Clause>, TreeError>,
) -> bool {
    if stack.nodes@.len() == 0 {
        r == Ok::<Seq<Clause>, TreeError>(Seq::<Clause>::empty())
    } else if forall|i: int| !(#[trigger] crate::node::found_visible_window(dfs(stack), i)) {
        r == Err::<Seq<Clause>, TreeError>(TreeError::NoVisibleNode)
    } else {
        exists|sv: Node|
            #[trigger] crate::node::is_first_visible_window(dfs(stack), sv) && (match first_from(
                stack.nodes@,
                child_with_id(sv.id),
                0,
            ) {
                Some(j) => r matches Ok(b) && is_stack_focus_batch(
                    b,
                    stack.nodes@[cyclic_index(stack.nodes@.len() as int, j, reverse)].id,
                    ws_id,
                ),
                None => r == Ok::<Seq<Clause>, TreeError>(Seq::<Clause>::empty()),
            })
    }
}

/// What a focus-cycling operation answers on a workspace tree: a no-op
/// without a stack mark, else as the marked stack decides.
pub open spec fn stack_focus_matches(
    wst: Node,
    ws_id: i64,
    reverse: bool,
    r: Result<Seq<Clause>, TreeError>,
) -> bool {
    let sm = stack_mark_text(ws_id as int);
    if forall|i: int| !(#[trigger] crate::node::found_mark(dfs(wst), sm, i)) {
        r == Ok::<Seq<Clause>, TreeError>(Seq::<Clause>::empty())
    } else {
        exists|stack: Node|
            #[trigger] crate::node::is_first_mark_match(dfs(wst), sm, stack)
                && stack_focus_on_stack_matches(stack, ws_id, reverse, r)
    }
}

/// The first child of the list with the given id.
fn find_child_index(nodes: &Vec<Node>, id: i64) -> (r: Option<usize>)
    ensures
        match r {
            Some(j) => j < nodes@.len() && first_from(nodes@, child_with_id(id), 0) == Some(
                j as int,
            ),
            None => first_from(nodes@, child_with_id(id), 0) is None,
        },
{
    let mut j: usize = 0;
    while j < nodes.len()
        invariant
            j <= nodes@.len(),
            first_from(nodes@, child_with_id(id), 0) == first_from(
                nodes@,
                child_with_id(id),
                j as int,
            ),
        decreases nodes@.len() - j,
    {
        if nodes[j].id == id {
            proof {
                assert(child_with_id(id)(nodes@[j as int]));
            }
            return Some(j);
        }
        proof {
            assert(!child_with_id(id)(nodes@[j as int]));
        }
        j += 1;
    }
    None
}

/// Cyclically focuses the stack child after (or, reversed, before) the
/// currently visible stack window, then hands focus back to the main mark.
/// A no-op without a stack mark, on an empty stack, and when the visible
/// window is not a direct stack child.
pub fn stack_focus_advance(tree: &Node, workspaces: &Vec<Workspace>, reverse: bool) -> (r: Result<
    Vec<Clause>,
    TreeError,
>)
    ensures
        (r == Err::<Vec<Clause>, TreeError>(TreeError::UnclassifiableNode))
            <==> !crate::node::all_classifiable(dfs(*tree)),
        match r {
            Ok(batch) => exists|w: Workspace, wst: Node|
                {
                    &&& #[trigger] crate::node::is_first_focused_ws(workspaces@, w)
                    &&& #[trigger] is_first_id_match(dfs(*tree), w.id, wst)
                    &&& stack_focus_matches(wst, w.id, reverse, Ok(batch@))
                },
            Err(TreeError::NoFocusedWorkspace) => forall|k: int|
                !(#[trigger] crate::node::found_focused_ws(workspaces@, k)),
            Err(TreeError::NoWorkspaceFound) => exists|w: Workspace|
                #[trigger] crate::node::is_first_focused_ws(workspaces@, w) && (forall|i: int|
                    !(#[trigger] found_id(dfs(*tree), w.id, i))),
            Err(TreeError::NoVisibleNode) => exists|w: Workspace, wst: Node|
                {
                    &&& #[trigger] crate::node::is_first_focused_ws(workspaces@, w)
                    &&& #[trigger] is_first_id_match(dfs(*tree), w.id, wst)
                    &&& stack_focus_matches(wst, w.id, reverse, Err(TreeError::NoVisibleNode))
                },
            Err(TreeError::UnclassifiableNode) => true,
            Err(_) => false,
        },
{
    match tree.find_unclassifiable() {
        Some(_) => {
            return Err(TreeError::UnclassifiableNode);
        },
        None => {},
    };
    let ws = match crate::node::get_focused_workspace(workspaces) {
        Ok(w) => w,
        Err(e) => {
            return Err(e);
        },
    };
    proof {
        assert(crate::node::is_first_focused_ws(workspaces@, *ws));
    }
    let wstree = match tree.find_by_id(ws.id) {
        Some(t) => t,
        None => {
            return Err(TreeError::NoWorkspaceFound);
        },
    };
    proof {
        assert(is_first_id_match(dfs(*tree), ws.id, *wstree));
    }
    let sm = stack_mark(ws.id);
    let stack = match wstree.find_with_mark(sm.as_str()) {
        Some(s) => s,
        None => {
            return Ok(Vec::new());
        },
    };
    proof {
        let d = dfs(*wstree);
        let i = choose|i: int|
            crate::node::found_mark(d, sm@, i) && *stack == d[i] && (forall|j: int|
                0 <= j < i ==> !crate::node::found_mark(d, sm@, j));
        assert(crate::node::found_mark(d, sm@, i));
        assert(crate::node::is_first_mark_match(d, sm@, *stack));
    }
    if stack.nodes.len() == 0 {
        return Ok(Vec::new());
    }
    let sv = match stack.find_visible_window() {
        Some(v) => v,
        None => {
            return Err(TreeError::NoVisibleNode);
        },
    };
    proof {
        assert(crate::node::is_first_visible_window(dfs(*stack), *sv));
    }
    let j = match find_child_index(&stack.nodes, sv.id) {
        Some(j) => j,
        None => {
            return Ok(Vec::new());
        },
    };
    let len = stack.nodes.len();
    let t: usize = if reverse {
        if j == 0 {
            len - 1
        } else {
            j - 1
        }
    } else {
        if j == len - 1 {
            0
        } else {
            j + 1
        }
    };
    let target_id = stack.nodes[t].id;
    let mm = main_mark(ws.id);
    let mut batch: Vec<Clause> = Vec::new();
    batch.push(Clause { sel: Some(Selector::ConId(target_id)), action: Action::Focus });
    batch.push(Clause { sel: Some(Selector::ConMark(mm)), action: Action::Focus });
    proof {
        assert(t as int == cyclic_index(stack.nodes@.len() as int, j as int, reverse));
        assert(is_stack_focus_batch(batch@, target_id, ws.id));
    }
    Ok(batch)
}

/// Focuses the stack child after the visible one, wrapping around.
pub fn stack_focus_next(tree: &Node, workspaces: &Vec<Workspace>) -> (r: Result<
    Vec<Clause>,
    TreeError,
>)
    ensures
        (r == Err::<Vec<Clause>, TreeError>(TreeError::UnclassifiableNode))
            <==> !crate::node::all_classifiable(dfs(*tree)),
        match r {
            Ok(batch) => exists|w: Workspace, wst: Node|
                {
                    &&& #[trigger] crate::node::is_first_focused_ws(workspaces@, w)
                    &&& #[trigger] is_first_id_match(dfs(*tree), w.id, wst)
                    &&& stack_focus_matches(wst, w.id, false, Ok(batch@))
                },
            Err(TreeError::NoFocusedWorkspace) => forall|k: int|
                !(#[trigger] crate::node::found_focused_ws(workspaces@, k)),
            Err(TreeError::NoWorkspaceFound) => exists|w: Workspace|
                #[trigger] crate::node::is_first_focused_ws(workspaces@, w) && (forall|i: int|
                    !(#[trigger] found_id(dfs(*tree), w.id, i))),
            Err(TreeError::NoVisibleNode) => exists|w: Workspace, wst: Node|
                {
                    &&& #[trigger] crate::node::is_first_focused_ws(workspaces@, w)
                    &&& #[trigger] is_first_id_match(dfs(*tree), w.id, wst)
                    &&& stack_focus_matches(wst, w.id, false, Err(TreeError::NoVisibleNode))
                },
            Err(TreeError::UnclassifiableNode) => true,
            Err(_) => false,
        },
{
    stack_focus_advance(tree, workspaces, false)
}

/// Focuses the stack child before the visible one, wrapping around.
pub fn stack_focus_prev(tree: &Node, workspaces: &Vec<Workspace>) -> (r: Result<
    Vec<Clause>,
    TreeError,
>)
    ensures
        (r == Err::<Vec<Clause>, TreeError>(TreeError::UnclassifiableNode))
            <==> !crate::node::all_classifiable(dfs(*tree)),
        match r {
            Ok(batch) => exists|w: Workspace, wst: Node|
                {
                    &&& #[trigger] crate::node::is_first_focused_ws(workspaces@, w)
                    &&& #[trigger] is_first_id_match(dfs(*tree), w.id, wst)
                    &&& stack_focus_matches(wst, w.id, true, Ok(batch@))
                },
            Err(TreeError::NoFocusedWorkspace) => forall|k: int|
                !(#[trigger] crate::node::found_focused_ws(workspaces@, k)),
            Err(TreeError::NoWorkspaceFound) => exists|w: Workspace|
                #[trigger] crate::node::is_first_focused_ws(workspaces@, w) && (forall|i: int|
                    !(#[trigger] found_id(dfs(*tree), w.id, i))),
            Err(TreeError::NoVisibleNode) => exists|w: Workspace, wst: Node|
                {
                    &&& #[trigger] crate::node::is_first_focused_ws(workspaces@, w)
                    &&& #[trigger] is_first_id_match(dfs(*tree), w.id, wst)
                    &&& stack_focus_matches(wst, w.id, true, Err(TreeError::NoVisibleNode))
                },
            Err(TreeError::UnclassifiableNode) => true,
            Err(_) => false,
        },
{
    stack_focus_advance(tree, workspaces, true)
}

/// The batch that swaps a stack window into the main position and moves the
/// main mark onto it.
pub open spec fn is_main_swap_batch(b: Seq<Clause>, main_id: i64, new_id: i64, ws_id: i64) -> bool {
    let mm = main_mark_text(ws_id as int);
    &&& b.len() == 5
    &&& b[0] == (Clause { sel: Some(Selector::ConId(main_id)), action: Action::Focus })
    &&& b[1] == (Clause { sel: None, action: Action::SwapWithId(new_id) })
    &&& b[2] == (Clause { sel: Some(Selector::ConId(new_id)), action: Action::Focus })
    &&& b[3].sel matches Some(Selector::ConMark(m)) && m@ == mm
    &&& b[3].action matches Action::Unmark(m) && m@ == mm
    &&& b[4].sel == Some(Selector::ConId(new_id))
    &&& b[4].action matches Action::MarkAdd(m) && m@ == mm
}

/// What the swap-main operation answers on a workspace tree: a no-op without
/// a stack mark or on an empty stack; otherwise it swaps the visible stack
/// window with the last workspace child, the main.
pub open spec fn swap_main_matches(wst: Node, ws_id: i64, r: Result<Seq<Clause>, TreeError>) -> bool {
    let sm = stack_mark_text(ws_id as int);
    if forall|i: int| !(#[trigger] crate::node::found_mark(dfs(wst), sm, i)) {
        r == Ok::<Seq<Clause>, TreeError>(Seq::<Clause>::empty())
    } else {
        exists|stack: Node|
            #[trigger] crate::node::is_first_mark_match(dfs(wst), sm, stack) && (
            if stack.nodes@.len() == 0 {
                r == Ok::<Seq<Clause>, TreeError>(Seq::<Clause>::empty())
            } else if wst.nodes@.len() == 0 {
                r == Err::<Seq<Clause>, TreeError>(TreeError::MainNotFound)
            } else if forall|i: int|
                !(#[trigger] crate::node::found_visible_window(dfs(stack), i)) {
                r == Err::<Seq<Clause>, TreeError>(TreeError::NoVisibleNode)
            } else {
                exists|sv: Node|
                    #[trigger] crate::node::is_first_visible_window(dfs(stack), sv) && (r matches Ok(
                        b,
                    ) && is_main_swap_batch(b, wst.nodes@.last().id, sv.id, ws_id))
            })
    }
}

/// Swaps the main window with whichever stack window is currently visible,
/// moving the main mark onto the swapped-in window.
pub fn stack_swap_main(tree: &Node, workspaces: &Vec<Workspace>) -> (r: Result<
    Vec<Clause>,
    TreeError,
>)
    ensures
        (r == Err::<Vec<Clause>, TreeError>(TreeError::UnclassifiableNode))
            <==> !crate::node::all_classifiable(dfs(*tree)),
        match r {
            Ok(batch) => exists|w: Workspace, wst: Node|
                {
                    &&& #[trigger] crate::node::is_first_focused_ws(workspaces@, w)
                    &&& #[trigger] is_first_id_match(dfs(*tree), w.id, wst)
                    &&& swap_main_matches(wst, w.id, Ok(batch@))
                },
            Err(TreeError::NoFocusedWorkspace) => forall|k: int|
                !(#[trigger] crate::node::found_focused_ws(workspaces@, k)),
            Err(TreeError::NoWorkspaceFound) => exists|w: Workspace|
                #[trigger] crate::node::is_first_focused_ws(workspaces@, w) && (forall|i: int|
                    !(#[trigger] found_id(dfs(*tree), w.id, i))),
            Err(TreeError::UnclassifiableNode) => true,
            Err(e) => (e == TreeError::MainNotFound || e == TreeError::NoVisibleNode) && (exists|
                w: Workspace,
                wst: Node,
            |
                {
                    &&& #[trigger] crate::node::is_first_focused_ws(workspaces@, w)
                    &&& #[trigger] is_first_id_match(dfs(*tree), w.id, wst)
                    &&& swap_main_matches(wst, w.id, Err(e))
                }),
        },
{
    match tree.find_unclassifiable() {
        Some(_) => {
            return Err(TreeError::UnclassifiableNode);
        },
        None => {},
    };
    let ws = match crate::node::get_focused_workspace(workspaces) {
        Ok(w) => w,
        Err(e) => {
            return Err(e);
        },
    };
    proof {
        assert(crate::node::is_first_focused_ws(workspaces@, *ws));
    }
    let wstree = match tree.find_by_id(ws.id) {
        Some(t) => t,
        None => {
            return Err(TreeError::NoWorkspaceFound);
        },
    };
    proof {
        assert(is_first_id_match(dfs(*tree), ws.id, *wstree));
    }
    let sm = stack_mark(ws.id);
    let stack = match wstree.find_with_mark(sm.as_str()) {
        Some(s) => s,
        None => {
            return Ok(Vec::new());
        },
    };
    proof {
        let d = dfs(*wstree);
        let i = choose|i: int|
            crate::node::found_mark(d, sm@, i) && *stack == d[i] && (forall|j: int|
                0 <= j < i ==> !crate::node::found_mark(d, sm@, j));
        assert(crate::node::found_mark(d, sm@, i));
        assert(crate::node::is_first_mark_match(d, sm@, *stack));
    }
    if stack.nodes.len() == 0 {
        return Ok(Vec::new());
    }
    if wstree.nodes.len() == 0 {
        return Err(TreeError::MainNotFound);
    }
    let main_id = wstree.nodes[wstree.nodes.len() - 1].id;
    let sv = match stack.find_visible_window() {
        Some(v) => v,
        None => {
            return Err(TreeError::NoVisibleNode);
        },
    };
    proof {
        assert(crate::node::is_first_visible_window(dfs(*stack), *sv));
    }
    let mm = main_mark(ws.id);
    let mm2 = mm.clone();
    let mm3 = mm.clone();
    let mut batch: Vec<Clause> = Vec::new();
    batch.push(Clause { sel: Some(Selector::ConId(main_id)), action: Action::Focus });
    batch.push(Clause { sel: None, action: Action::SwapWithId(sv.id) });
    batch.push(Clause { sel: Some(Selector::ConId(sv.id)), action: Action::Focus });
    batch.push(Clause { sel: Some(Selector::ConMark(mm)), action: Action::Unmark(mm2) });
    batch.push(Clause { sel: Some(Selector::ConId(sv.id)), action: Action::MarkAdd(mm3) });
    proof {
        assert(is_main_swap_batch(batch@, main_id, sv.id, ws.id));
    }
    Ok(batch)
}

/// One link of the rotation's swap chain, which runs from the tail down:
/// link `k` focuses the leaf `k` positions before the tail and swaps it with
/// its predecessor, so every leaf moves one position toward the head.
pub open spec fn rotate_pair_ok(b: Seq<Clause>, leaves: Seq<Node>, k: int) -> bool {
    &&& b[2 * k] == (Clause {
        sel: Some(Selector::ConId(leaves[leaves.len() - 1 - k].id)),
        action: Action::Focus,
    })
    &&& b[2 * k + 1] == (Clause {
        sel: None,
        action: Action::SwapWithId(leaves[leaves.len() - 2 - k].id),
    })
}

/// The rotation's first batch: swap each stack leaf with its predecessor,
/// from the tail down — the old head lands at the tail — then focus the
/// stack's last child and hand focus back to the main mark.
pub open spec fn is_rotate_shuffle_batch(
    b: Seq<Clause>,
    leaves: Seq<Node>,
    last_child_id: i64,
    ws_id: i64,
) -> bool {
    let pairs: int = if leaves.len() == 0 {
        0
    } else {
        2 * (leaves.len() - 1)
    };
    let mm = main_mark_text(ws_id as int);
    &&& b.len() == pairs + 2
    &&& forall|k: int| 0 <= k < leaves.len() - 1 ==> #[trigger] rotate_pair_ok(b, leaves, k)
    &&& b[pairs] == (Clause { sel: Some(Selector::ConId(last_child_id)), action: Action::Focus })
    &&& b[pairs + 1].sel matches Some(Selector::ConMark(m)) && m@ == mm
    &&& b[pairs + 1].action is Focus
}

/// What the rotation's first step answers on a workspace tree: a no-op
/// without a stack mark or on an empty stack, else the swap chain over the
/// stack's windows.
pub open spec fn rotate_shuffle_matches(wst: Node, ws_id: i64, r: Result<
    Seq<Clause>,
    TreeError,
>) -> bool {
    let sm = stack_mark_text(ws_id as int);
    if forall|i: int| !(#[trigger] crate::node::found_mark(dfs(wst), sm, i)) {
        r == Ok::<Seq<Clause>, TreeError>(Seq::<Clause>::empty())
    } else {
        exists|stack: Node|
            #[trigger] crate::node::is_first_mark_match(dfs(wst), sm, stack) && (
            if stack.nodes@.len() == 0 {
                r == Ok::<Seq<Clause>, TreeError>(Seq::<Clause>::empty())
            } else {
                r matches Ok(b) && is_rotate_shuffle_batch(
                    b,
                    crate::node::windows_of(stack),
                    stack.nodes@.last().id,
                    ws_id,
                )
            })
    }
}

/// The rotation's first step: rotate all stack leaves one position toward
/// the head by a pairwise swap chain, pushing the old head to the tail;
/// focus the stack's tail, and hand focus back to the main mark.  The
/// second step runs against a fresh snapshot.
pub fn stack_main_rotate_shuffle(tree: &Node, workspaces: &Vec<Workspace>) -> (r: Result<
    Vec<Clause>,
    TreeError,
>)
    ensures
        (r == Err::<Vec<Clause>, TreeError>(TreeError::UnclassifiableNode))
            <==> !crate::node::all_classifiable(dfs(*tree)),
        match r {
            Ok(batch) => exists|w: Workspace, wst: Node|
                {
                    &&& #[trigger] crate::node::is_first_focused_ws(workspaces@, w)
                    &&& #[trigger] is_first_id_match(dfs(*tree), w.id, wst)
                    &&& rotate_shuffle_matches(wst, w.id, Ok(batch@))
                },
            Err(TreeError::NoFocusedWorkspace) => forall|k: int|
                !(#[trigger] crate::node::found_focused_ws(workspaces@, k)),
            Err(TreeError::NoWorkspaceFound) => exists|w: Workspace|
                #[trigger] crate::node::is_first_focused_ws(workspaces@, w) && (forall|i: int|
                    !(#[trigger] found_id(dfs(*tree), w.id, i))),
            Err(TreeError::UnclassifiableNode) => true,
            Err(_) => false,
        },
{
    match tree.find_unclassifiable() {
        Some(_) => {
            return Err(TreeError::UnclassifiableNode);
        },
        None => {},
    };
    let ws = match crate::node::get_focused_workspace(workspaces) {
        Ok(w) => w,
        Err(e) => {
            return Err(e);
        },
    };
    proof {
        assert(crate::node::is_first_focused_ws(workspaces@, *ws));
    }
    let wstree = match tree.find_by_id(ws.id) {
        Some(t) => t,
        None => {
            return Err(TreeError::NoWorkspaceFound);
        },
    };
    proof {
        assert(is_first_id_match(dfs(*tree), ws.id, *wstree));
    }
    let sm = stack_mark(ws.id);
    let stack = match wstree.find_with_mark(sm.as_str()) {
        Some(s) => s,
        None => {
            return Ok(Vec::new());
        },
    };
    proof {
        let d = dfs(*wstree);
        let i = choose|i: int|
            crate::node::found_mark(d, sm@, i) && *stack == d[i] && (forall|j: int|
                0 <= j < i ==> !crate::node::found_mark(d, sm@, j));
        assert(crate::node::found_mark(d, sm@, i));
        assert(crate::node::is_first_mark_match(d, sm@, *stack));
    }
    if stack.nodes.len() == 0 {
        return Ok(Vec::new());
    }
    let leaves = stack.window_nodes();
    let ghost lv = crate::node::windows_of(*stack);
    let mut batch: Vec<Clause> = Vec::new();
    if leaves.len() > 0 {
        let mut k: usize = 0;
        while k + 1 < leaves.len()
            invariant
                crate::node::deref_seq(leaves@) == lv,
                k < leaves@.len(),
                batch@.len() == 2 * k,
                forall|q: int| 0 <= q < k ==> #[trigger] rotate_pair_ok(batch@, lv, q),
            decreases leaves@.len() - k,
        {
            let ghost b0 = batch@;
            let a: &Node = leaves[leaves.len() - 1 - k];
            let b: &Node = leaves[leaves.len() - 2 - k];
            proof {
                assert(*a == crate::node::deref_seq(leaves@)[leaves@.len() - 1 - k as int]);
                assert(*b == crate::node::deref_seq(leaves@)[leaves@.len() - 2 - k as int]);
            }
            batch.push(Clause { sel: Some(Selector::ConId(a.id)), action: Action::Focus });
            batch.push(Clause { sel: None, action: Action::SwapWithId(b.id) });
            proof {
                assert forall|q: int| 0 <= q < k + 1 implies #[trigger] rotate_pair_ok(
                    batch@,
                    lv,
                    q,
                ) by {
                    if q < k {
                        assert(rotate_pair_ok(b0, lv, q));
                        assert(batch@[2 * q] == b0[2 * q]);
                        assert(batch@[2 * q + 1] == b0[2 * q + 1]);
                    } else {
                        assert(batch@[2 * q] == (Clause {
                            sel: Some(Selector::ConId(lv[lv.len() - 1 - q].id)),
                            action: Action::Focus,
                        }));
                    }
                }
            }
            k += 1;
        }
    }
    let last_child_id = stack.nodes[stack.nodes.len() - 1].id;
    let mm = main_mark(ws.id);
    let ghost bp = batch@;
    batch.push(Clause { sel: Some(Selector::ConId(last_child_id)), action: Action::Focus });
    batch.push(Clause { sel: Some(Selector::ConMark(mm)), action: Action::Focus });
    proof {
        let pairs: int = if lv.len() == 0 {
            0
        } else {
            2 * (lv.len() - 1)
        };
        assert(bp.len() == pairs);
        assert forall|q: int| 0 <= q < lv.len() - 1 implies #[trigger] rotate_pair_ok(
            batch@,
            lv,
            q,
        ) by {
            assert(rotate_pair_ok(bp, lv, q));
            assert(batch@[2 * q] == bp[2 * q]);
            assert(batch@[2 * q + 1] == bp[2 * q + 1]);
        }
        assert(is_rotate_shuffle_batch(batch@, lv, last_child_id, ws.id));
    }
    Ok(batch)
}

/// What the rotation's second step answers on a fresh workspace tree: swap
/// the last window of the rotated stack's traversal — the new tail, the old
/// head — with the main (the last workspace child) and move the main mark
/// onto it.
pub open spec fn rotate_swap_matches(wst: Node, ws_id: i64, r: Result<
    Seq<Clause>,
    TreeError,
>) -> bool {
    if wst.nodes@.len() == 0 {
        r == Err::<Seq<Clause>, TreeError>(TreeError::MainNotFound)
    } else {
        let main = wst.nodes@.last();
        let stack = wst.nodes@[0];
        if forall|i: int| !(#[trigger] crate::node::found_window(dfs(stack), i)) {
            r == Err::<Seq<Clause>, TreeError>(TreeError::NoStackWindow)
        } else {
            exists|sf: Node|
                #[trigger] crate::node::is_last_window(dfs(stack), sf) && (r matches Ok(b)
                    && is_main_swap_batch(b, main.id, sf.id, ws_id))
        }
    }
}

/// The rotation's second step, against a fresh snapshot: the rotated
/// stack's new tail — the old head, popped into main — becomes the main,
/// and the main mark moves onto it.
pub fn stack_main_rotate_promote(tree: &Node, workspaces: &Vec<Workspace>) -> (r: Result<
    Vec<Clause>,
    TreeError,
>)
    ensures
        (r == Err::<Vec<Clause>, TreeError>(TreeError::UnclassifiableNode))
            <==> !crate::node::all_classifiable(dfs(*tree)),
        match r {
            Ok(batch) => exists|w: Workspace, wst: Node|
                {
                    &&& #[trigger] crate::node::is_first_focused_ws(workspaces@, w)
                    &&& #[trigger] is_first_id_match(dfs(*tree), w.id, wst)
                    &&& rotate_swap_matches(wst, w.id, Ok(batch@))
                },
            Err(TreeError::NoFocusedWorkspace) => forall|k: int|
                !(#[trigger] crate::node::found_focused_ws(workspaces@, k)),
            Err(TreeError::NoWorkspaceFound) => exists|w: Workspace|
                #[trigger] crate::node::is_first_focused_ws(workspaces@, w) && (forall|i: int|
                    !(#[trigger] found_id(dfs(*tree), w.id, i))),
            Err(TreeError::UnclassifiableNode) => true,
            Err(e) => (e == TreeError::MainNotFound || e == TreeError::NoStackWindow) && (exists|
                w: Workspace,
                wst: Node,
            |
                {
                    &&& #[trigger] crate::node::is_first_focused_ws(workspaces@, w)
                    &&& #[trigger] is_first_id_match(dfs(*tree), w.id, wst)
                    &&& rotate_swap_matches(wst, w.id, Err(e))
                }),
        },
{
    match tree.find_unclassifiable() {
        Some(_) => {
            return Err(TreeError::UnclassifiableNode);
        },
        None => {},
    };
    let ws = match crate::node::get_focused_workspace(workspaces) {
        Ok(w) => w,
        Err(e) => {
            return Err(e);
        },
    };
    proof {
        assert(crate::node::is_first_focused_ws(workspaces@, *ws));
    }
    let wstree = match tree.find_by_id(ws.id) {
        Some(t) => t,
        None => {
            return Err(TreeError::NoWorkspaceFound);
        },
    };
    proof {
        assert(is_first_id_match(dfs(*tree), ws.id, *wstree));
    }
    if wstree.nodes.len() == 0 {
        return Err(TreeError::MainNotFound);
    }
    let main_id = wstree.nodes[wstree.nodes.len() - 1].id;
    let stack = &wstree.nodes[0];
    let sf = match stack.find_last_window() {
        Some(m) => m,
        None => {
            return Err(TreeError::NoStackWindow);
        },
    };
    let mm = main_mark(ws.id);
    let mm2 = mm.clone();
    let mm3 = mm.clone();
    let mut batch: Vec<Clause> = Vec::new();
    batch.push(Clause { sel: Some(Selector::ConId(main_id)), action: Action::Focus });
    batch.push(Clause { sel: None, action: Action::SwapWithId(sf.id) });
    batch.push(Clause { sel: Some(Selector::ConId(sf.id)), action: Action::Focus });
    batch.push(Clause { sel: Some(Selector::ConMark(mm)), action: Action::Unmark(mm2) });
    batch.push(Clause { sel: Some(Selector::ConId(sf.id)), action: Action::MarkAdd(mm3) });
    proof {
        assert(is_main_swap_batch(batch@, main_id, sf.id, ws.id));
    }
    Ok(batch)
}

} // verus!
