use persway::layout::{size_in_range, StackLayout, WorkspaceLayout};
use persway::strutil::{dec_u64_string, parse_u64, str_eq};
use persway::util::{resolve_socket_path, socket_path_in};

#[test]
fn renders_decimals() {
    assert_eq!(dec_u64_string(0), "0");
    assert_eq!(dec_u64_string(7), "7");
    assert_eq!(dec_u64_string(12345), "12345");
    assert_eq!(dec_u64_string(18446744073709551615), "18446744073709551615");
}

#[test]
fn parses_decimals_as_the_standard_parser_does() {
    assert_eq!(parse_u64("42"), Some(42));
    assert_eq!(parse_u64("+42"), Some(42));
    assert_eq!(parse_u64("0"), Some(0));
    assert_eq!(parse_u64(""), None);
    assert_eq!(parse_u64("+"), None);
    assert_eq!(parse_u64("4x2"), None);
    assert_eq!(parse_u64("-1"), None);
    assert_eq!(parse_u64("18446744073709551615"), Some(u64::MAX));
    assert_eq!(parse_u64("18446744073709551616"), None);
    assert_eq!(parse_u64("99999999999999999999999999"), None);
}

#[test]
fn compares_strings() {
    assert!(str_eq("spiral", "spiral"));
    assert!(!str_eq("spiral", "spira"));
    assert!(!str_eq("", "a"));
    assert!(str_eq("", ""));
}

#[test]
fn reads_sizes_in_range() {
    assert_eq!(size_in_range("70"), Ok(70));
    assert_eq!(size_in_range("10"), Ok(10));
    assert_eq!(size_in_range("90"), Ok(90));
    assert_eq!(size_in_range("9"), Err("size not in range 10-90".to_string()));
    assert_eq!(size_in_range("91"), Err("size not in range 10-90".to_string()));
    assert_eq!(size_in_range("abc"), Err("abc is not a valid size".to_string()));
    assert_eq!(
        size_in_range("99999999999999999999999999"),
        Err("99999999999999999999999999 is not a valid size".to_string())
    );
}

#[test]
fn reads_and_renders_workspace_layouts() {
    assert_eq!(WorkspaceLayout::from_str("spiral"), Ok(WorkspaceLayout::Spiral));
    assert_eq!(WorkspaceLayout::from_str("manual"), Ok(WorkspaceLayout::Manual));
    assert_eq!(
        WorkspaceLayout::from_str("stack_main"),
        Ok(WorkspaceLayout::StackMain { size: 70, stack_layout: StackLayout::Stacked })
    );
    assert_eq!(
        WorkspaceLayout::from_str("cascade"),
        Err("I don't know about the layout 'cascade'".to_string())
    );
    assert_eq!(WorkspaceLayout::Spiral.to_text(), "spiral");
    assert_eq!(WorkspaceLayout::Manual.to_text(), "manual");
    assert_eq!(
        (WorkspaceLayout::StackMain { size: 65, stack_layout: StackLayout::Tabbed }).to_text(),
        "stack_main tabbed 65"
    );
}

#[test]
fn reads_and_renders_stack_layouts() {
    assert_eq!(StackLayout::from_str("tabbed"), Ok(StackLayout::Tabbed));
    assert_eq!(StackLayout::from_str("stacked"), Ok(StackLayout::Stacked));
    assert_eq!(StackLayout::from_str("tiled"), Ok(StackLayout::Tiled));
    assert_eq!(
        StackLayout::from_str("rows"),
        Err("I don't know about the stack layout 'rows'".to_string())
    );
    assert_eq!(StackLayout::Stacked.to_text(), "stacked");
}

#[test]
fn builds_the_socket_path() {
    assert_eq!(
        socket_path_in("/run/user/1000", "wayland-1"),
        "/run/user/1000/persway-wayland-1.sock"
    );
}

#[test]
fn picks_the_socket_path() {
    // An explicit override wins over everything.
    assert_eq!(
        resolve_socket_path(
            Some("/tmp/mine.sock".to_string()),
            Some("/run/user/1000".to_string()),
            Some("wayland-1".to_string()),
        ),
        "/tmp/mine.sock"
    );
    assert_eq!(
        resolve_socket_path(None, Some("/run/user/1000".to_string()), Some("wayland-1".to_string())),
        "/run/user/1000/persway-wayland-1.sock"
    );
    // Missing environment falls back to /tmp and "unknown".
    assert_eq!(resolve_socket_path(None, None, None), "/tmp/persway-unknown.sock");
}
