use persway::cmd::serialize_batch;
use persway::layout::{StackLayout, WorkspaceLayout};
use persway::message_handler::{EventDispatch, LayoutDispatch, MessageHandler};
use persway::node::{ChildLayout, Node, NodeKind, Rect, WindowChange, Workspace};
use persway::relayout::{reinsert_cmd, relayout_plan, relayout_restore_cmd};

fn base_node(id: i64, node_type: NodeKind) -> Node {
    Node {
        id,
        name: None,
        node_type,
        layout: ChildLayout::NoLayout,
        rect: Rect { x: 0, y: 0, width: 100, height: 50 },
        focused: false,
        visible: false,
        full_screen: false,
        app_id: None,
        pid: None,
        shell: None,
        window_properties: None,
        num: None,
        marks: vec![],
        nodes: vec![],
        floating_nodes: vec![],
    }
}

fn window(id: i64) -> Node {
    let mut n = base_node(id, NodeKind::Con);
    n.pid = Some(1);
    n
}

#[test]
fn lazily_creates_workspace_entries_with_the_default() {
    let mut handler = MessageHandler::new(
        WorkspaceLayout::StackMain { size: 60, stack_layout: StackLayout::Tabbed },
        true,
        None,
        None,
    );
    let c = handler.get_workspace_config(7);
    assert_eq!(
        c.layout,
        WorkspaceLayout::StackMain { size: 60, stack_layout: StackLayout::Tabbed }
    );
    // The entry persists: a later lookup sees the same choice.
    let again = handler.get_workspace_config(7);
    assert_eq!(again.layout, c.layout);
}

#[test]
fn routes_events_by_the_active_discipline() {
    let mut handler = MessageHandler::new(WorkspaceLayout::Spiral, true, None, None);
    assert_eq!(
        handler.handle_event(WindowChange::Focus, 1),
        EventDispatch { layout: LayoutDispatch::Spiral, rename: true }
    );
    // Renaming acts on focus and close events only.
    assert_eq!(
        handler.handle_event(WindowChange::New, 1),
        EventDispatch { layout: LayoutDispatch::Idle, rename: false }
    );
    assert_eq!(
        handler.handle_event(WindowChange::Close, 1),
        EventDispatch { layout: LayoutDispatch::Idle, rename: true }
    );
    let mut handler = MessageHandler::new(
        WorkspaceLayout::StackMain { size: 70, stack_layout: StackLayout::Stacked },
        false,
        None,
        None,
    );
    assert_eq!(
        handler.handle_event(WindowChange::New, 1),
        EventDispatch {
            layout: LayoutDispatch::StackNew { size: 70, stack_layout: StackLayout::Stacked },
            rename: false,
        }
    );
    assert_eq!(
        handler.handle_event(WindowChange::Close, 1),
        EventDispatch { layout: LayoutDispatch::StackClose { size: 70 }, rename: false }
    );
    assert_eq!(
        handler.handle_event(WindowChange::Move, 1),
        EventDispatch {
            layout: LayoutDispatch::StackMove { size: 70, stack_layout: StackLayout::Stacked },
            rename: false,
        }
    );
    let mut handler = MessageHandler::new(WorkspaceLayout::Manual, false, None, None);
    assert_eq!(
        handler.handle_event(WindowChange::Focus, 1),
        EventDispatch { layout: LayoutDispatch::Idle, rename: false }
    );
}

#[test]
fn plans_the_migration_through_the_scratch_workspace() {
    let mut ws = base_node(10, NodeKind::Workspace);
    ws.num = Some(1);
    ws.layout = ChildLayout::SplitH;
    ws.nodes = vec![window(100), window(200)];
    let mut output = base_node(5, NodeKind::Output);
    output.nodes = vec![ws];
    let mut root = base_node(1, NodeKind::Root);
    root.nodes = vec![output];
    let wss = vec![Workspace { id: 10, num: 1, name: "1: term".to_string(), focused: true }];
    let plan = relayout_plan(&root, &wss, 1).unwrap();
    assert_eq!(plan.window_ids, vec![100, 200]);
    assert_eq!(plan.output_id, 5);
    assert_eq!(plan.ws_node_id, 10);
    assert_eq!(plan.focused_ws_num, 1);
    assert_eq!(plan.focused_ws_name, "1: term");
    assert_eq!(
        serialize_batch(&plan.eviction),
        "[con_id=100] move to workspace \u{25d5}\u{203f}\u{25d5}; \
         [con_id=200] move to workspace \u{25d5}\u{203f}\u{25d5}; \
         workspace \u{25d5}\u{203f}\u{25d5}; move workspace to output 5"
    );
}

#[test]
fn reinserts_each_window_by_number_and_focuses_it() {
    let batch = reinsert_cmd(100, 3);
    assert_eq!(
        serialize_batch(&batch),
        "[con_id=100] move to workspace number 3; [con_id=100] focus"
    );
}

#[test]
fn restores_focus_only_when_it_drifted() {
    let name = "2: editor".to_string();
    let drifted = relayout_restore_cmd(2, &name, 5, 7);
    assert_eq!(
        serialize_batch(&drifted),
        "workspace number 2; move workspace to output 7; rename workspace to 2: editor"
    );
    let stayed = relayout_restore_cmd(2, &name, 2, 7);
    assert_eq!(serialize_batch(&stayed), "rename workspace to 2: editor");
}
