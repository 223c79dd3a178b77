use persway::cmd::serialize_batch;
use persway::node::{ChildLayout, Node, NodeKind, Rect, Workspace};
use persway::stack_main::{
    stack_focus_next, stack_focus_prev, stack_main_rotate_promote, stack_main_rotate_shuffle,
    stack_swap_main,
};

fn base_node(id: i64, node_type: NodeKind) -> Node {
    Node {
        id,
        name: None,
        node_type,
        layout: ChildLayout::NoLayout,
        rect: Rect { x: 0, y: 0, width: 100, height: 50 },
        focused: false,
        visible: false,
        full_screen: false,
        app_id: None,
        pid: None,
        shell: None,
        window_properties: None,
        num: None,
        marks: vec![],
        nodes: vec![],
        floating_nodes: vec![],
    }
}

fn window(id: i64) -> Node {
    let mut n = base_node(id, NodeKind::Con);
    n.pid = Some(1);
    n
}

/// A workspace (id 10) holding a marked stack of the given leaves and a main
/// window (id 200).
fn marked_stack_tree(leaves: Vec<Node>) -> (Node, Vec<Workspace>) {
    let mut stack = base_node(50, NodeKind::Con);
    stack.layout = ChildLayout::Stacked;
    stack.marks = vec!["_stack_10".to_string()];
    stack.nodes = leaves;
    let mut ws = base_node(10, NodeKind::Workspace);
    ws.num = Some(1);
    ws.layout = ChildLayout::SplitH;
    ws.nodes = vec![stack, window(200)];
    let mut root = base_node(1, NodeKind::Root);
    root.nodes = vec![ws];
    let workspaces = vec![Workspace { id: 10, num: 1, name: "1".to_string(), focused: true }];
    (root, workspaces)
}

fn visible(id: i64) -> Node {
    let mut n = window(id);
    n.visible = true;
    n
}

#[test]
fn focus_next_selects_the_third_when_the_middle_is_visible() {
    let (tree, wss) = marked_stack_tree(vec![window(301), visible(302), window(303)]);
    let batch = stack_focus_next(&tree, &wss).unwrap();
    assert_eq!(serialize_batch(&batch), "[con_id=303] focus; [con_mark=_main_10] focus");
}

#[test]
fn focus_prev_selects_the_first_when_the_middle_is_visible() {
    let (tree, wss) = marked_stack_tree(vec![window(301), visible(302), window(303)]);
    let batch = stack_focus_prev(&tree, &wss).unwrap();
    assert_eq!(serialize_batch(&batch), "[con_id=301] focus; [con_mark=_main_10] focus");
}

#[test]
fn focus_next_wraps_around_at_the_end() {
    let (tree, wss) = marked_stack_tree(vec![window(301), visible(302)]);
    let batch = stack_focus_next(&tree, &wss).unwrap();
    assert_eq!(serialize_batch(&batch), "[con_id=301] focus; [con_mark=_main_10] focus");
}

#[test]
fn focus_prev_wraps_around_at_the_start() {
    let (tree, wss) = marked_stack_tree(vec![visible(301), window(302)]);
    let batch = stack_focus_prev(&tree, &wss).unwrap();
    assert_eq!(serialize_batch(&batch), "[con_id=302] focus; [con_mark=_main_10] focus");
}

#[test]
fn focus_ops_do_nothing_without_the_stack_mark() {
    let mut stack = base_node(50, NodeKind::Con);
    stack.layout = ChildLayout::Stacked;
    stack.nodes = vec![visible(301)];
    let mut ws = base_node(10, NodeKind::Workspace);
    ws.num = Some(1);
    ws.layout = ChildLayout::SplitH;
    ws.nodes = vec![stack, window(200)];
    let mut root = base_node(1, NodeKind::Root);
    root.nodes = vec![ws];
    let wss = vec![Workspace { id: 10, num: 1, name: "1".to_string(), focused: true }];
    let batch = stack_focus_next(&root, &wss).unwrap();
    assert!(batch.is_empty());
}

#[test]
fn swap_main_swaps_the_visible_leaf_and_moves_the_mark() {
    let (tree, wss) = marked_stack_tree(vec![window(301), visible(302)]);
    let batch = stack_swap_main(&tree, &wss).unwrap();
    assert_eq!(
        serialize_batch(&batch),
        "[con_id=200] focus; swap container with con_id 302; [con_id=302] focus; \
         [con_mark=_main_10] unmark _main_10; [con_id=302] mark --add _main_10"
    );
}

#[test]
fn rotation_first_step_chains_swaps_from_the_tail_down() {
    // The swap chain runs tail first, moving every leaf one position toward
    // the head and pushing the old head to the tail.
    let (tree, wss) = marked_stack_tree(vec![window(301), window(302), window(303)]);
    let batch = stack_main_rotate_shuffle(&tree, &wss).unwrap();
    assert_eq!(
        serialize_batch(&batch),
        "[con_id=303] focus; swap container with con_id 302; \
         [con_id=302] focus; swap container with con_id 301; \
         [con_id=303] focus; [con_mark=_main_10] focus"
    );
}

#[test]
fn rotation_second_step_pops_the_old_head_into_main() {
    // After the shuffle ran on [301, 302, 303], a fresh snapshot shows the
    // stack as [302, 303, 301]; its new tail, the old head 301, becomes the
    // main.
    let (tree, wss) = marked_stack_tree(vec![window(302), window(303), window(301)]);
    let batch = stack_main_rotate_promote(&tree, &wss).unwrap();
    assert_eq!(
        serialize_batch(&batch),
        "[con_id=200] focus; swap container with con_id 301; [con_id=301] focus; \
         [con_mark=_main_10] unmark _main_10; [con_id=301] mark --add _main_10"
    );
}

#[test]
fn rotation_first_step_does_nothing_on_an_empty_stack() {
    let (tree, wss) = marked_stack_tree(vec![]);
    let batch = stack_main_rotate_shuffle(&tree, &wss).unwrap();
    assert!(batch.is_empty());
}
