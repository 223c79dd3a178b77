use persway::cmd::serialize_batch;
use persway::node::{ChildLayout, Node, NodeKind, Rect, Workspace};
use persway::spiral::spiral_cmd;

fn base_node(id: i64, node_type: NodeKind) -> Node {
    Node {
        id,
        name: None,
        node_type,
        layout: ChildLayout::NoLayout,
        rect: Rect { x: 0, y: 0, width: 100, height: 50 },
        focused: false,
        visible: false,
        full_screen: false,
        app_id: None,
        pid: None,
        shell: None,
        window_properties: None,
        num: None,
        marks: vec![],
        nodes: vec![],
        floating_nodes: vec![],
    }
}

fn window(id: i64, width: i32, height: i32) -> Node {
    let mut n = base_node(id, NodeKind::Con);
    n.pid = Some(1);
    n.rect = Rect { x: 0, y: 0, width, height };
    n
}

fn tree_with(ws_name: &str, win: Node) -> (Node, Vec<Workspace>) {
    let mut ws = base_node(10, NodeKind::Workspace);
    ws.num = Some(1);
    ws.layout = ChildLayout::SplitH;
    ws.nodes = vec![win];
    let mut output = base_node(5, NodeKind::Output);
    output.nodes = vec![ws];
    let mut root = base_node(1, NodeKind::Root);
    root.nodes = vec![output];
    let workspaces = vec![Workspace {
        id: 10,
        num: 1,
        name: ws_name.to_string(),
        focused: true,
    }];
    (root, workspaces)
}

#[test]
fn splits_vertically_when_taller_than_wide() {
    let (tree, wss) = tree_with("1", window(100, 40, 80));
    let batch = spiral_cmd(&tree, &wss, 100).unwrap();
    assert_eq!(serialize_batch(&batch), "[con_id=100] focus; split v");
}

#[test]
fn splits_horizontally_when_wider_than_tall() {
    let (tree, wss) = tree_with("1", window(100, 80, 40));
    let batch = spiral_cmd(&tree, &wss, 100).unwrap();
    assert_eq!(serialize_batch(&batch), "[con_id=100] focus; split h");
}

#[test]
fn splits_horizontally_on_a_square_window() {
    let (tree, wss) = tree_with("1", window(100, 60, 60));
    let batch = spiral_cmd(&tree, &wss, 100).unwrap();
    assert_eq!(serialize_batch(&batch), "[con_id=100] focus; split h");
}

#[test]
fn stays_silent_for_a_fullscreen_window() {
    let mut w = window(100, 40, 80);
    w.full_screen = true;
    let (tree, wss) = tree_with("1", w);
    let batch = spiral_cmd(&tree, &wss, 100).unwrap();
    assert!(batch.is_empty());
}

#[test]
fn stays_silent_for_a_floating_window() {
    let mut w = window(100, 40, 80);
    w.node_type = NodeKind::FloatingCon;
    let mut ws = base_node(10, NodeKind::Workspace);
    ws.num = Some(1);
    ws.layout = ChildLayout::SplitH;
    ws.floating_nodes = vec![w];
    let mut root = base_node(1, NodeKind::Root);
    root.nodes = vec![ws];
    let wss = vec![Workspace { id: 10, num: 1, name: "1".to_string(), focused: true }];
    let batch = spiral_cmd(&root, &wss, 100).unwrap();
    assert!(batch.is_empty());
}

#[test]
fn stays_silent_under_a_stacked_parent() {
    let mut stackc = base_node(50, NodeKind::Con);
    stackc.layout = ChildLayout::Stacked;
    stackc.nodes = vec![window(100, 40, 80)];
    let mut ws = base_node(10, NodeKind::Workspace);
    ws.num = Some(1);
    ws.layout = ChildLayout::SplitH;
    ws.nodes = vec![stackc];
    let mut root = base_node(1, NodeKind::Root);
    root.nodes = vec![ws];
    let wss = vec![Workspace { id: 10, num: 1, name: "1".to_string(), focused: true }];
    let batch = spiral_cmd(&root, &wss, 100).unwrap();
    assert!(batch.is_empty());
}

#[test]
fn stays_silent_on_the_scratch_workspace() {
    let (tree, wss) = tree_with("\u{25d5}\u{203f}\u{25d5}", window(100, 40, 80));
    let batch = spiral_cmd(&tree, &wss, 100).unwrap();
    assert!(batch.is_empty());
}

#[test]
fn reports_a_missing_node() {
    let (tree, wss) = tree_with("1", window(100, 40, 80));
    assert!(spiral_cmd(&tree, &wss, 999).is_err());
}
