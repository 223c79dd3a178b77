use persway::node::{ChildLayout, Node, NodeKind, Rect, RefinedNodeType, WindowProperties};

fn base_node(id: i64, node_type: NodeKind) -> Node {
    Node {
        id,
        name: None,
        node_type,
        layout: ChildLayout::NoLayout,
        rect: Rect { x: 0, y: 0, width: 100, height: 50 },
        focused: false,
        visible: false,
        full_screen: false,
        app_id: None,
        pid: None,
        shell: None,
        window_properties: None,
        num: None,
        marks: vec![],
        nodes: vec![],
        floating_nodes: vec![],
    }
}

fn window(id: i64) -> Node {
    let mut n = base_node(id, NodeKind::Con);
    n.pid = Some(4242);
    n.app_id = Some("app".to_string());
    n.name = Some("a window".to_string());
    n
}

fn container(id: i64, children: Vec<Node>) -> Node {
    let mut n = base_node(id, NodeKind::Con);
    n.layout = ChildLayout::SplitH;
    n.nodes = children;
    n
}

#[test]
fn classifies_root_output_workspace() {
    assert!(matches!(
        base_node(1, NodeKind::Root).get_refined_node_type(),
        Some(RefinedNodeType::Root)
    ));
    assert!(matches!(
        base_node(2, NodeKind::Output).get_refined_node_type(),
        Some(RefinedNodeType::Output)
    ));
    assert!(matches!(
        base_node(3, NodeKind::Workspace).get_refined_node_type(),
        Some(RefinedNodeType::Workspace)
    ));
}

#[test]
fn classifies_window_and_container() {
    assert!(window(4).is_window());
    assert!(!window(4).is_container());
    let c = container(5, vec![]);
    assert!(c.is_container());
    assert!(!c.is_window());
}

#[test]
fn classifies_floating_variants() {
    let mut fw = base_node(6, NodeKind::FloatingCon);
    fw.pid = Some(7);
    assert!(fw.is_floating_window());
    let mut fc = base_node(7, NodeKind::FloatingCon);
    fc.layout = ChildLayout::SplitV;
    assert!(fc.is_floating_container());
}

#[test]
fn rejects_the_invariant_violation_shape() {
    // A con with a name but no process attributes matches no classification.
    let mut bad = base_node(8, NodeKind::Con);
    bad.name = Some("who am I".to_string());
    assert!(bad.get_refined_node_type().is_none());
    // So does the legacy dock area kind.
    assert!(base_node(9, NodeKind::Dockarea).get_refined_node_type().is_none());
}

#[test]
fn window_properties_presence_blocks_container_shape() {
    let mut n = base_node(10, NodeKind::Con);
    n.layout = ChildLayout::SplitH;
    n.window_properties = Some(WindowProperties { class: None });
    assert!(n.get_refined_node_type().is_none());
}

#[test]
fn traversal_visits_floating_children_first() {
    let mut ws = base_node(20, NodeKind::Workspace);
    ws.num = Some(1);
    let mut tiled = window(21);
    tiled.visible = true;
    ws.nodes = vec![tiled, window(22)];
    let mut fl = window(23);
    fl.node_type = NodeKind::FloatingCon;
    fl.visible = true;
    ws.floating_nodes = vec![fl];
    // Both a floating and a tiling child are visible: the floating one wins.
    assert_eq!(ws.find_visible().unwrap().id, 23);
    // Tiling windows keep their left-to-right order.
    let ids: Vec<i64> = ws.window_nodes().iter().map(|n| n.id).collect();
    assert_eq!(ids, vec![21, 22]);
}

#[test]
fn find_by_id_takes_the_first_match() {
    let mut ws = base_node(30, NodeKind::Workspace);
    ws.num = Some(2);
    ws.nodes = vec![window(31), container(32, vec![window(33)])];
    assert_eq!(ws.find_by_id(33).unwrap().id, 33);
    assert!(ws.find_by_id(99).is_none());
    assert!(ws.contains_id(31));
    assert!(!ws.contains_id(99));
}

#[test]
fn get_parent_finds_the_tiling_parent() {
    let inner = container(41, vec![window(42)]);
    let tree = container(40, vec![inner]);
    let w = window(42);
    assert_eq!(w.get_parent(&tree).unwrap().id, 41);
    let orphan = window(99);
    assert!(orphan.get_parent(&tree).is_none());
}

#[test]
fn is_stacked_and_is_tabbed_read_the_parent_layout() {
    let mut stackc = container(51, vec![window(52)]);
    stackc.layout = ChildLayout::Stacked;
    let tree = container(50, vec![stackc]);
    let w = window(52);
    assert_eq!(w.is_stacked(&tree), Ok(true));
    assert_eq!(w.is_tabbed(&tree), Ok(false));
}
