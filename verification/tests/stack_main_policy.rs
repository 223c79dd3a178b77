use persway::cmd::serialize_batch;
use persway::layout::StackLayout;
use persway::node::{ChildLayout, Node, NodeKind, Rect, Workspace};
use persway::stack_main::{
    on_close_window, on_move_window_disposition, on_new_window, MoveDisposition,
};

fn base_node(id: i64, node_type: NodeKind) -> Node {
    Node {
        id,
        name: None,
        node_type,
        layout: ChildLayout::NoLayout,
        rect: Rect { x: 0, y: 0, width: 100, height: 50 },
        focused: false,
        visible: false,
        full_screen: false,
        app_id: None,
        pid: None,
        shell: None,
        window_properties: None,
        num: None,
        marks: vec![],
        nodes: vec![],
        floating_nodes: vec![],
    }
}

fn window(id: i64) -> Node {
    let mut n = base_node(id, NodeKind::Con);
    n.pid = Some(1);
    n
}

fn workspace_tree(ws_children: Vec<Node>) -> (Node, Vec<Workspace>) {
    let mut ws = base_node(10, NodeKind::Workspace);
    ws.num = Some(1);
    ws.layout = ChildLayout::SplitH;
    ws.nodes = ws_children;
    let mut output = base_node(5, NodeKind::Output);
    output.nodes = vec![ws];
    let mut root = base_node(1, NodeKind::Root);
    root.nodes = vec![output];
    let workspaces = vec![Workspace { id: 10, num: 1, name: "1".to_string(), focused: true }];
    (root, workspaces)
}

#[test]
fn first_window_creates_the_axis() {
    let (tree, wss) = workspace_tree(vec![window(100)]);
    let batch = on_new_window(&tree, &wss, 100, 70, StackLayout::Stacked).unwrap();
    assert_eq!(serialize_batch(&batch), "[con_id=100] focus; split h");
}

#[test]
fn second_window_converts_the_first_into_the_stack() {
    // One leaf window already there (first child), the new window last.
    let (tree, wss) = workspace_tree(vec![window(100), window(200)]);
    let batch = on_new_window(&tree, &wss, 200, 70, StackLayout::Stacked).unwrap();
    assert_eq!(
        serialize_batch(&batch),
        "[con_id=100] focus; split v; layout stacking; resize set width 30; [con_id=200] focus"
    );
}

#[test]
fn second_window_stack_sublayouts_differ() {
    let (tree, wss) = workspace_tree(vec![window(100), window(200)]);
    let tabbed = on_new_window(&tree, &wss, 200, 60, StackLayout::Tabbed).unwrap();
    assert_eq!(
        serialize_batch(&tabbed),
        "[con_id=100] focus; split v; layout tabbed; resize set width 40; [con_id=200] focus"
    );
    let tiled = on_new_window(&tree, &wss, 200, 60, StackLayout::Tiled).unwrap();
    assert_eq!(
        serialize_batch(&tiled),
        "[con_id=100] focus; split v; resize set width 40; [con_id=200] focus"
    );
}

#[test]
fn insertion_into_the_stack_swaps_with_main() {
    // First child is already a container holding the new window.
    let mut stack = base_node(50, NodeKind::Con);
    stack.layout = ChildLayout::Stacked;
    stack.nodes = vec![window(300), window(301)];
    let (tree, wss) = workspace_tree(vec![stack, window(200)]);
    let batch = on_new_window(&tree, &wss, 301, 70, StackLayout::Stacked).unwrap();
    assert_eq!(
        serialize_batch(&batch),
        "[con_id=200] focus; swap container with con_id 301; [con_id=301] focus"
    );
}

#[test]
fn insertion_elsewhere_is_a_nop() {
    let mut stack = base_node(50, NodeKind::Con);
    stack.layout = ChildLayout::Stacked;
    stack.nodes = vec![window(300)];
    let mut other = window(400);
    other.node_type = NodeKind::FloatingCon;
    let mut tree_ws = vec![stack, window(200)];
    // The event's node floats beside the two children.
    let mut ws = base_node(10, NodeKind::Workspace);
    ws.num = Some(1);
    ws.layout = ChildLayout::SplitH;
    ws.nodes = std::mem::take(&mut tree_ws);
    ws.floating_nodes = vec![other];
    let mut root = base_node(1, NodeKind::Root);
    root.nodes = vec![ws];
    let wss = vec![Workspace { id: 10, num: 1, name: "1".to_string(), focused: true }];
    let batch = on_new_window(&root, &wss, 400, 70, StackLayout::Stacked).unwrap();
    assert_eq!(serialize_batch(&batch), "nop event container not in stack");
}

#[test]
fn third_insertion_moves_through_the_transient_tag() {
    let mut stack = base_node(50, NodeKind::Con);
    stack.layout = ChildLayout::Stacked;
    stack.nodes = vec![window(300)];
    let (tree, wss) = workspace_tree(vec![stack, window(200), window(500)]);
    let batch = on_new_window(&tree, &wss, 500, 70, StackLayout::Stacked).unwrap();
    assert_eq!(
        serialize_batch(&batch),
        "[con_id=50] mark --add _stack_50; [con_id=500] focus; move container to mark _stack_50; \
         [con_mark=_stack_50] unmark _stack_50; [con_id=200] focus; \
         swap container with con_id 500; [con_id=500] focus"
    );
}

#[test]
fn four_or_more_children_are_left_alone() {
    let (tree, wss) = workspace_tree(vec![window(1), window(2), window(3), window(4)]);
    let batch = on_new_window(&tree, &wss, 4, 70, StackLayout::Stacked).unwrap();
    assert!(batch.is_empty());
}

#[test]
fn close_collapses_a_one_leaf_stack() {
    let mut stack = base_node(50, NodeKind::Con);
    stack.layout = ChildLayout::Stacked;
    let mut leaf = window(300);
    leaf.visible = true;
    stack.nodes = vec![leaf];
    let (tree, wss) = workspace_tree(vec![stack]);
    let batch = on_close_window(&tree, &wss, 999, 70).unwrap();
    assert_eq!(
        serialize_batch(&batch),
        "[con_id=300] focus; layout splith; move up"
    );
}

#[test]
fn close_reshapes_a_bigger_stack() {
    let mut stack = base_node(50, NodeKind::Con);
    stack.layout = ChildLayout::Stacked;
    let mut top = window(300);
    top.focused = true;
    stack.nodes = vec![top, window(301)];
    let (tree, wss) = workspace_tree(vec![stack]);
    let batch = on_close_window(&tree, &wss, 999, 70).unwrap();
    assert_eq!(
        serialize_batch(&batch),
        "[con_id=300] focus; move right; resize set width 70"
    );
}

#[test]
fn close_with_two_siblings_is_a_nop() {
    let (tree, wss) = workspace_tree(vec![window(100), window(200)]);
    let batch = on_close_window(&tree, &wss, 999, 70).unwrap();
    assert!(batch.is_empty());
}

#[test]
fn move_within_the_focused_workspace_inserts_in_place() {
    let (tree, wss) = workspace_tree(vec![window(100), window(200)]);
    assert_eq!(
        on_move_window_disposition(&tree, &wss, 200),
        Ok(MoveDisposition::Insert)
    );
}

#[test]
fn move_across_workspaces_inserts_then_repairs() {
    let mut ws1 = base_node(10, NodeKind::Workspace);
    ws1.num = Some(1);
    ws1.layout = ChildLayout::SplitH;
    ws1.nodes = vec![window(100)];
    let mut ws2 = base_node(11, NodeKind::Workspace);
    ws2.num = Some(2);
    ws2.layout = ChildLayout::SplitH;
    ws2.nodes = vec![window(200)];
    let mut root = base_node(1, NodeKind::Root);
    root.nodes = vec![ws1, ws2];
    let wss = vec![
        Workspace { id: 10, num: 1, name: "1".to_string(), focused: false },
        Workspace { id: 11, num: 2, name: "2".to_string(), focused: true },
    ];
    assert_eq!(
        on_move_window_disposition(&root, &wss, 100),
        Ok(MoveDisposition::InsertThenRepair)
    );
}

#[test]
fn move_of_a_vanished_node_is_skipped() {
    let (tree, wss) = workspace_tree(vec![window(100)]);
    assert_eq!(
        on_move_window_disposition(&tree, &wss, 999),
        Ok(MoveDisposition::Skip)
    );
}
