use persway::layout::StackLayout;
use persway::node::{ChildLayout, Node, NodeKind, Rect, TreeError, Workspace};
use persway::relayout::relayout_plan;
use persway::stack_main::{on_close_window, on_new_window, stack_swap_main};

fn base_node(id: i64, node_type: NodeKind) -> Node {
    Node {
        id,
        name: None,
        node_type,
        layout: ChildLayout::NoLayout,
        rect: Rect { x: 0, y: 0, width: 100, height: 50 },
        focused: false,
        visible: false,
        full_screen: false,
        app_id: None,
        pid: None,
        shell: None,
        window_properties: None,
        num: None,
        marks: vec![],
        nodes: vec![],
        floating_nodes: vec![],
    }
}

fn window(id: i64) -> Node {
    let mut n = base_node(id, NodeKind::Con);
    n.pid = Some(1);
    n
}

fn container(id: i64, children: Vec<Node>) -> Node {
    let mut n = base_node(id, NodeKind::Con);
    n.layout = ChildLayout::SplitH;
    n.nodes = children;
    n
}

fn ws_tree(children: Vec<Node>) -> (Node, Vec<Workspace>) {
    let mut ws = base_node(10, NodeKind::Workspace);
    ws.num = Some(1);
    ws.layout = ChildLayout::SplitH;
    ws.nodes = children;
    let mut root = base_node(1, NodeKind::Root);
    root.nodes = vec![ws];
    let wss = vec![Workspace { id: 10, num: 1, name: "1".to_string(), focused: true }];
    (root, wss)
}

#[test]
fn reports_a_node_outside_any_workspace() {
    // The event's node floats directly under the root: no workspace holds it.
    let mut root = base_node(1, NodeKind::Root);
    root.nodes = vec![window(100)];
    let wss = vec![Workspace { id: 10, num: 1, name: "1".to_string(), focused: true }];
    assert_eq!(
        on_new_window(&root, &wss, 100, 70, StackLayout::Stacked),
        Err(TreeError::NoWorkspaceForNode)
    );
}

#[test]
fn reports_an_unknown_workspace_id() {
    let (tree, _) = ws_tree(vec![window(100)]);
    // The workspace list does not know the workspace node's id.
    let wss = vec![Workspace { id: 99, num: 1, name: "1".to_string(), focused: true }];
    assert_eq!(
        on_new_window(&tree, &wss, 100, 70, StackLayout::Stacked),
        Err(TreeError::UnknownWorkspace)
    );
}

#[test]
fn reports_a_missing_main_window() {
    // Three children, none of the later ones a window: no main to swap with.
    let (tree, wss) = ws_tree(vec![
        container(50, vec![window(300)]),
        container(51, vec![]),
        container(52, vec![window(500)]),
    ]);
    assert_eq!(
        on_new_window(&tree, &wss, 500, 70, StackLayout::Stacked),
        Err(TreeError::MainNotFound)
    );
}

#[test]
fn reports_a_missing_focused_workspace() {
    let (tree, _) = ws_tree(vec![window(100)]);
    let unfocused = vec![Workspace { id: 10, num: 1, name: "1".to_string(), focused: false }];
    assert_eq!(
        on_close_window(&tree, &unfocused, 999, 70),
        Err(TreeError::NoFocusedWorkspace)
    );
}

#[test]
fn reports_a_stack_without_a_visible_node() {
    // One remaining sibling whose subtree has neither focus nor visibility.
    let (tree, wss) = ws_tree(vec![container(50, vec![window(300)])]);
    assert_eq!(on_close_window(&tree, &wss, 999, 70), Err(TreeError::NoVisibleNode));
}

#[test]
fn reports_a_marked_stack_without_a_visible_window() {
    let mut stack = container(50, vec![window(300)]);
    stack.marks = vec!["_stack_10".to_string()];
    let (tree, wss) = ws_tree(vec![stack, window(200)]);
    assert_eq!(stack_swap_main(&tree, &wss), Err(TreeError::NoVisibleNode));
}

#[test]
fn reports_a_workspace_missing_from_the_tree() {
    let (tree, _) = ws_tree(vec![window(100)]);
    // The focused workspace's id is not in the tree snapshot.
    let wss = vec![Workspace { id: 77, num: 7, name: "7".to_string(), focused: true }];
    assert_eq!(on_close_window(&tree, &wss, 999, 70), Err(TreeError::NoWorkspaceFound));
}

#[test]
fn protocol_drift_is_fatal_for_the_operation() {
    // A con with a name but neither a process nor the pure-container shape
    // matches no classification: every policy fails on such a snapshot.
    let mut drifted = base_node(66, NodeKind::Con);
    drifted.name = Some("what is this".to_string());
    let (mut tree, wss) = ws_tree(vec![window(100)]);
    tree.nodes.push(drifted);
    assert_eq!(
        on_new_window(&tree, &wss, 100, 70, StackLayout::Stacked),
        Err(TreeError::UnclassifiableNode)
    );
    assert_eq!(
        persway::spiral::spiral_cmd(&tree, &wss, 100),
        Err(TreeError::UnclassifiableNode)
    );
    assert_eq!(stack_swap_main(&tree, &wss), Err(TreeError::UnclassifiableNode));
    assert_eq!(
        relayout_plan(&tree, &wss, 1).map(|_| ()),
        Err(TreeError::UnclassifiableNode)
    );
}

#[test]
fn reports_a_missing_output_for_relayout() {
    let (tree, wss) = ws_tree(vec![window(100)]);
    // No output node owns workspace number 4.
    assert_eq!(
        relayout_plan(&tree, &wss, 4).map(|_| ()),
        Err(TreeError::NoOutputFound)
    );
}
