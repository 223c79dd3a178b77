use persway::commands::{parse_message, response_line, tokenize, PerswayCommand};
use persway::layout::{StackLayout, WorkspaceLayout};
use persway::message_handler::{CommandAction, MessageHandler};

#[test]
fn tokenizes_on_whitespace() {
    let toks = tokenize("persway  change-layout\t--layout stack_main\n");
    let toks: Vec<&str> = toks.iter().map(|t| t.as_str()).collect();
    assert_eq!(toks, vec!["persway", "change-layout", "--layout", "stack_main"]);
    assert!(tokenize("   \t ").is_empty());
}

#[test]
fn parses_the_simple_commands() {
    assert!(matches!(
        parse_message("persway stack-focus-next"),
        Ok(PerswayCommand::StackFocusNext)
    ));
    assert!(matches!(
        parse_message("persway stack-focus-prev"),
        Ok(PerswayCommand::StackFocusPrev)
    ));
    assert!(matches!(
        parse_message("persway stack-swap-main"),
        Ok(PerswayCommand::StackSwapMain)
    ));
    assert!(matches!(
        parse_message("persway stack-main-rotate-next"),
        Ok(PerswayCommand::StackMainRotateNext)
    ));
}

#[test]
fn parses_a_layout_change() {
    match parse_message("persway change-layout --layout stack_main") {
        Ok(PerswayCommand::ChangeLayout { layout }) => {
            assert_eq!(
                layout,
                WorkspaceLayout::StackMain { size: 70, stack_layout: StackLayout::Stacked }
            );
        },
        other => panic!("unexpected parse: {:?}", other),
    }
    match parse_message("persway change-layout --layout stack_main --size 55 --stack-layout tabbed")
    {
        Ok(PerswayCommand::ChangeLayout { layout }) => {
            assert_eq!(
                layout,
                WorkspaceLayout::StackMain { size: 55, stack_layout: StackLayout::Tabbed }
            );
        },
        other => panic!("unexpected parse: {:?}", other),
    }
    match parse_message("persway -s /tmp/p.sock change-layout --layout spiral") {
        Ok(PerswayCommand::ChangeLayout { layout }) => assert_eq!(layout, WorkspaceLayout::Spiral),
        other => panic!("unexpected parse: {:?}", other),
    }
}

#[test]
fn accepts_the_short_option_forms() {
    // The command line offers -s and -l for the stack-main options; the
    // socket accepts the same sentence.
    match parse_message("persway change-layout --layout stack_main -s 55 -l tiled") {
        Ok(PerswayCommand::ChangeLayout { layout }) => {
            assert_eq!(
                layout,
                WorkspaceLayout::StackMain { size: 55, stack_layout: StackLayout::Tiled }
            );
        },
        other => panic!("unexpected parse: {:?}", other),
    }
}

#[test]
fn rejects_bad_requests_with_a_reason() {
    assert_eq!(
        parse_message("persway change-layout --layout cascade"),
        Err("I don't know about the layout 'cascade'".to_string())
    );
    assert_eq!(
        parse_message("persway change-layout --layout stack_main --size 5"),
        Err("size not in range 10-90".to_string())
    );
    assert_eq!(
        parse_message("persway change-layout --layout stack_main --size many"),
        Err("many is not a valid size".to_string())
    );
    assert_eq!(
        parse_message("persway fly-to-the-moon"),
        Err("unknown command 'fly-to-the-moon'".to_string())
    );
    assert_eq!(parse_message("persway"), Err("missing command".to_string()));
    assert_eq!(
        parse_message("persway daemon"),
        Err("the daemon command is only accepted on the command line".to_string())
    );
    assert_eq!(
        parse_message("persway stack-focus-next now"),
        Err("unexpected argument 'now'".to_string())
    );
}

#[test]
fn answers_one_response_line() {
    assert_eq!(response_line(&Ok(PerswayCommand::StackFocusNext)), "success\n");
    assert_eq!(
        response_line(&Err("missing command".to_string())),
        "fail: missing command\n"
    );
}

#[test]
fn change_layout_round_trip_is_idempotent() {
    // A daemon whose focused workspace runs manual tiling receives the
    // layout-change request: it succeeds and asks for a relayout.
    let mut handler = MessageHandler::new(WorkspaceLayout::Manual, false, None, None);
    let request = "persway change-layout --layout stack_main";
    let parsed = parse_message(request);
    assert_eq!(response_line(&parsed), "success\n");
    let cmd = parsed.unwrap();
    let action = handler.handle_command(&cmd, 3);
    assert_eq!(
        action,
        CommandAction::Relayout {
            ws_num: 3,
            layout: WorkspaceLayout::StackMain { size: 70, stack_layout: StackLayout::Stacked },
        }
    );
    // The identical request again succeeds with no relayout side effect.
    let parsed_again = parse_message(request);
    assert_eq!(response_line(&parsed_again), "success\n");
    let action_again = handler.handle_command(&parsed_again.unwrap(), 3);
    assert_eq!(action_again, CommandAction::Ignore);
}
