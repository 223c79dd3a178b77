use persway::cmd::{serialize_batch, Clause};
use persway::node::{ChildLayout, Node, NodeKind, Rect, WindowChange, WindowProperties, Workspace};
use persway::renamer::{get_app_name, rename_workspace_cmd};
use persway::window_focus::WindowFocus;

fn bare_window(id: i64) -> Node {
    Node {
        id,
        name: None,
        node_type: NodeKind::Con,
        layout: ChildLayout::NoLayout,
        rect: Rect { x: 0, y: 0, width: 100, height: 50 },
        focused: false,
        visible: false,
        full_screen: false,
        app_id: None,
        pid: Some(1),
        shell: None,
        window_properties: None,
        num: None,
        marks: vec![],
        nodes: vec![],
        floating_nodes: vec![],
    }
}

fn ws(name: &str) -> Workspace {
    Workspace { id: 10, num: 42, name: name.to_string(), focused: true }
}

#[test]
fn derives_the_name_from_the_app_id() {
    let mut w = bare_window(1);
    w.app_id = Some("Firefox".to_string());
    assert_eq!(get_app_name(&w), Some("firefox".to_string()));
    let batch = rename_workspace_cmd(&ws("42: oldname"), &w);
    assert_eq!(serialize_batch(&batch), "rename workspace to 42: firefox");
}

#[test]
fn falls_back_to_the_window_class() {
    let mut w = bare_window(2);
    w.app_id = Some(String::new());
    w.window_properties = Some(WindowProperties { class: Some("-Code-".to_string()) });
    assert_eq!(get_app_name(&w), Some("code".to_string()));
    let batch = rename_workspace_cmd(&ws("3"), &w);
    assert_eq!(serialize_batch(&batch), "rename workspace to 3: code");
}

#[test]
fn falls_back_to_the_title_before_the_separator() {
    let mut w = bare_window(3);
    w.name = Some("Report draft | LibreOffice Writer".to_string());
    assert_eq!(get_app_name(&w), Some("report draft".to_string()));
}

#[test]
fn no_source_means_no_rename() {
    let w = bare_window(4);
    assert_eq!(get_app_name(&w), None);
    let batch = rename_workspace_cmd(&ws("42"), &w);
    assert!(batch.is_empty());
}

#[test]
fn scratch_workspaces_are_left_alone() {
    let mut w = bare_window(5);
    w.app_id = Some("Firefox".to_string());
    let batch = rename_workspace_cmd(&ws("__i3_scratch"), &w);
    assert!(batch.is_empty());
}

#[test]
fn focus_hook_scopes_the_leave_command_to_the_previous_node() {
    let mut hook = WindowFocus::new(
        Some("[tiling] opacity 0.8; opacity 1".to_string()),
        Some("mark --add _prev".to_string()),
    );
    // The first focus has no previous node: only the enter command runs.
    let batches = hook.handle(WindowChange::Focus, 100);
    let texts: Vec<String> = batches.iter().map(|b: &Vec<Clause>| serialize_batch(b)).collect();
    assert_eq!(texts, vec!["[tiling] opacity 0.8; opacity 1".to_string()]);
    // The next focus runs the leave command against node 100 first.
    let batches = hook.handle(WindowChange::Focus, 200);
    let texts: Vec<String> = batches.iter().map(|b: &Vec<Clause>| serialize_batch(b)).collect();
    assert_eq!(
        texts,
        vec![
            "[con_id=100] mark --add _prev".to_string(),
            "[tiling] opacity 0.8; opacity 1".to_string(),
        ]
    );
    // A close runs only the leave command, and clears the stored node.
    let batches = hook.handle(WindowChange::Close, 300);
    let texts: Vec<String> = batches.iter().map(|b: &Vec<Clause>| serialize_batch(b)).collect();
    assert_eq!(texts, vec!["[con_id=200] mark --add _prev".to_string()]);
    // So the focus after a close runs no leave command against the node
    // that is already gone: only the enter command runs.
    let batches = hook.handle(WindowChange::Focus, 500);
    let texts: Vec<String> = batches.iter().map(|b: &Vec<Clause>| serialize_batch(b)).collect();
    assert_eq!(texts, vec!["[tiling] opacity 0.8; opacity 1".to_string()]);
    // Other changes run nothing.
    assert!(hook.handle(WindowChange::Other, 400).is_empty());
}
