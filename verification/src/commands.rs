//! The command grammar shared by the command line and the control socket.
//!
//! A control-socket request carries the full original command-line text; the
//! daemon tokenizes it on whitespace and reads one runtime command from it.

use vstd::prelude::*;

use crate::layout::{StackLayout, WorkspaceLayout, STACK_MAIN_DEFAULT_SIZE};
use crate::strutil::{parsed_u64, str_eq};

verus! {

/// The options the daemon starts with.
#[derive(Debug, PartialEq)]
pub struct DaemonArgs {
    /// The layout of workspaces no explicit choice was made for.
    pub default_layout: WorkspaceLayout,
    /// Default share of the width, in percent, for the stack-main main area.
    pub stack_main_default_size: u8,
    /// Default sub-layout of the stack-main stack area.
    pub stack_main_default_stack_layout: StackLayout,
    /// Rename workspaces after the application focused on them.
    pub workspace_renaming: bool,
    /// Command to run when a window gains focus.
    pub on_window_focus: Option<String>,
    /// Command to run, scoped to the previous window, when focus moves on.
    pub on_window_focus_leave: Option<String>,
    /// Command to run when the daemon exits.
    pub on_exit: Option<String>,
}

impl DaemonArgs {
    /// The daemon-wide default layout: a stack-main default picks up the
    /// separately configured size and stack sub-layout.
    pub fn resolved_default_layout(&self) -> (r: WorkspaceLayout)
        ensures
            r == (match self.default_layout {
                WorkspaceLayout::StackMain { .. } => WorkspaceLayout::StackMain {
                    size: self.stack_main_default_size,
                    stack_layout: self.stack_main_default_stack_layout,
                },
                other => other,
            }),
    {
        match self.default_layout {
            WorkspaceLayout::StackMain { .. } => WorkspaceLayout::StackMain {
                size: self.stack_main_default_size,
                stack_layout: self.stack_main_default_stack_layout,
            },
            other => other,
        }
    }
}

/// One command of the daemon's runtime interface.
#[derive(Debug, PartialEq)]
pub enum PerswayCommand {
    /// Start the daemon; only accepted on the command line.
    Daemon(DaemonArgs),
    /// Focus the next stacked window.
    StackFocusNext,
    /// Focus the previous stacked window.
    StackFocusPrev,
    /// Swap the visible stacked window with the main window.
    StackSwapMain,
    /// Pop the top of the stack into main, pushing the old main onto the
    /// stack.
    StackMainRotateNext,
    /// Change the layout of the focused workspace.
    ChangeLayout { layout: WorkspaceLayout },
}

/// An ASCII whitespace character, as the tokenizer splits on.
pub open spec fn is_ascii_ws(c: char) -> bool {
    c == ' ' || c == '\t' || c == '\n' || c == '\r' || c == '\u{000C}'
}

/// The index of the first whitespace character at or after position `i`, or
/// the length.
pub open spec fn first_ws_from(s: Seq<char>, i: int) -> int
    decreases s.len() - i,
{
    if i < 0 || i >= s.len() {
        s.len() as int
    } else if is_ascii_ws(s[i]) {
        i
    } else {
        first_ws_from(s, i + 1)
    }
}

/// Where the first whitespace at or after `i` lies: past `i`, within the
/// sequence, at a whitespace character unless at the end.
pub proof fn lemma_first_ws_from(s: Seq<char>, i: int)
    requires
        0 <= i <= s.len(),
    ensures
        i <= first_ws_from(s, i) <= s.len(),
        first_ws_from(s, i) < s.len() ==> is_ascii_ws(s[first_ws_from(s, i)]),
        forall|j: int| i <= j < first_ws_from(s, i) ==> !is_ascii_ws(#[trigger] s[j]),
    decreases s.len() - i,
{
    if i < s.len() && !is_ascii_ws(s[i]) {
        lemma_first_ws_from(s, i + 1);
    }
}

/// The whitespace-separated tokens of the sequence from position `i` on.
pub open spec fn tokens_from(s: Seq<char>, i: int) -> Seq<Seq<char>>
    decreases s.len() - i,
    when 0 <= i <= s.len()
    via tokens_from_dec
{
    if i >= s.len() {
        Seq::empty()
    } else if is_ascii_ws(s[i]) {
        tokens_from(s, i + 1)
    } else {
        seq![s.subrange(i, first_ws_from(s, i))] + tokens_from(s, first_ws_from(s, i))
    }
}

#[via_fn]
proof fn tokens_from_dec(s: Seq<char>, i: int) {
    if 0 <= i && i < s.len() && !is_ascii_ws(s[i]) {
        lemma_first_ws_from(s, i);
    }
}

/// The whitespace-separated tokens of a request text.
pub open spec fn tokens_of(s: Seq<char>) -> Seq<Seq<char>> {
    tokens_from(s, 0)
}

/// The character sequences behind a list of strings.
pub open spec fn strings_view(s: Seq<String>) -> Seq<Seq<char>> {
    s.map_values(|t: String| t@)
}

/// Whether a character is ASCII whitespace.
fn is_ws_char(c: char) -> (r: bool)
    ensures
        r == is_ascii_ws(c),
{
    c == ' ' || c == '\t' || c == '\n' || c == '\r' || c == '\u{000C}'
}

/// Splits a request text into its whitespace-separated tokens.
pub fn tokenize(s: &str) -> (r: Vec<String>)
    ensures
        strings_view(r@) == tokens_of(s@),
{
    let len = s.unicode_len();
    let mut r: Vec<String> = Vec::new();
    let mut i: usize = 0;
    proof {
        assert(strings_view(r@) =~= Seq::<Seq<char>>::empty());
    }
    while i < len
        invariant
            i <= len,
            len == s@.len(),
            tokens_of(s@) == strings_view(r@) + tokens_from(s@, i as int),
        decreases len - i,
    {
        let c = s.get_char(i);
        if is_ws_char(c) {
            i += 1;
        } else {
            let mut e: usize = i;
            while e < len && !is_ws_char(s.get_char(e))
                invariant
                    i <= e <= len,
                    len == s@.len(),
                    first_ws_from(s@, i as int) == first_ws_from(s@, e as int),
                decreases len - e,
            {
                e += 1;
            }
            proof {
                assert(e as int == first_ws_from(s@, i as int));
            }
            let tok = s.substring_char(i, e);
            let ghost r0 = r@;
            r.push(String::from_str(tok));
            proof {
                assert(strings_view(r@) =~= strings_view(r0).push(tok@));
                assert(tokens_of(s@) =~= strings_view(r@) + tokens_from(s@, e as int));
            }
            i = e;
        }
    }
    proof {
        assert(tokens_of(s@) =~= strings_view(r@));
    }
    r
}

/// A command with no further arguments; a trailing token is an error.
pub open spec fn simple_command(toks: Seq<Seq<char>>, start: int, c: PerswayCommand) -> Result<
    PerswayCommand,
    Seq<char>,
> {
    if toks.len() == start + 1 {
        Ok(c)
    } else {
        Err("unexpected argument '"@ + toks[start + 1] + "'"@)
    }
}

/// A plain layout name takes no options.
pub open spec fn finish_plain_layout(toks: Seq<Seq<char>>, i: int, l: WorkspaceLayout) -> Result<
    PerswayCommand,
    Seq<char>,
> {
    if toks.len() == i {
        Ok(PerswayCommand::ChangeLayout { layout: l })
    } else {
        Err("unexpected argument '"@ + toks[i] + "'"@)
    }
}

/// The stack-main options, folded left to right over the remaining tokens.
/// Each option is accepted in its long and its short form, as on the command
/// line.
pub open spec fn parse_stack_opts(toks: Seq<Seq<char>>, i: int, size: u8, sl: StackLayout) -> Result<
    PerswayCommand,
    Seq<char>,
>
    decreases toks.len() - i,
{
    if i < 0 || i >= toks.len() {
        Ok(
            PerswayCommand::ChangeLayout {
                layout: WorkspaceLayout::StackMain { size, stack_layout: sl },
            },
        )
    } else if toks[i] == "--size"@ || toks[i] == "-s"@ {
        if i + 1 < toks.len() {
            match parsed_u64(toks[i + 1]) {
                Some(v) => if 10 <= v && v <= 90 {
                    parse_stack_opts(toks, i + 2, v as u8, sl)
                } else {
                    Err("size not in range 10-90"@)
                },
                None => Err(toks[i + 1] + " is not a valid size"@),
            }
        } else {
            Err("expected a value after --size"@)
        }
    } else if toks[i] == "--stack-layout"@ || toks[i] == "-l"@ {
        if i + 1 < toks.len() {
            let name = toks[i + 1];
            if name == "tabbed"@ {
                parse_stack_opts(toks, i + 2, size, StackLayout::Tabbed)
            } else if name == "stacked"@ {
                parse_stack_opts(toks, i + 2, size, StackLayout::Stacked)
            } else if name == "tiled"@ {
                parse_stack_opts(toks, i + 2, size, StackLayout::Tiled)
            } else {
                Err("I don't know about the stack layout '"@ + name + "'"@)
            }
        } else {
            Err("expected a value after --stack-layout"@)
        }
    } else {
        Err("unexpected argument '"@ + toks[i] + "'"@)
    }
}

/// The layout-change arguments: a required `--layout` name, then stack-main
/// options.
pub open spec fn parse_change_layout(toks: Seq<Seq<char>>, i: int) -> Result<
    PerswayCommand,
    Seq<char>,
> {
    if toks.len() < i + 2 || toks[i] != "--layout"@ {
        Err("expected --layout <layout>"@)
    } else {
        let name = toks[i + 1];
        if name == "spiral"@ {
            finish_plain_layout(toks, i + 2, WorkspaceLayout::Spiral)
        } else if name == "manual"@ {
            finish_plain_layout(toks, i + 2, WorkspaceLayout::Manual)
        } else if name == "stack_main"@ {
            parse_stack_opts(toks, i + 2, STACK_MAIN_DEFAULT_SIZE, StackLayout::Stacked)
        } else {
            Err("I don't know about the layout '"@ + name + "'"@)
        }
    }
}

/// What a control-socket request parses to.  The leading token is the
/// program name and is ignored; an optional socket-path option may precede
/// the command; the daemon command itself is refused here.
pub open spec fn parse_spec(toks: Seq<Seq<char>>) -> Result<PerswayCommand, Seq<char>> {
    let start: int = if toks.len() >= 3 && (toks[1] == "--socket-path"@ || toks[1] == "-s"@) {
        3
    } else {
        1
    };
    if toks.len() <= start {
        Err("missing command"@)
    } else {
        let sub = toks[start];
        if sub == "stack-focus-next"@ {
            simple_command(toks, start, PerswayCommand::StackFocusNext)
        } else if sub == "stack-focus-prev"@ {
            simple_command(toks, start, PerswayCommand::StackFocusPrev)
        } else if sub == "stack-swap-main"@ {
            simple_command(toks, start, PerswayCommand::StackSwapMain)
        } else if sub == "stack-main-rotate-next"@ {
            simple_command(toks, start, PerswayCommand::StackMainRotateNext)
        } else if sub == "change-layout"@ {
            parse_change_layout(toks, start + 1)
        } else if sub == "daemon"@ {
            Err("the daemon command is only accepted on the command line"@)
        } else {
            Err("unknown command '"@ + sub + "'"@)
        }
    }
}

/// An error message quoting one offending token.
fn quoted_error(prefix: &str, tok: &str) -> (r: String)
    ensures
        r@ == prefix@ + tok@ + "'"@,
{
    let mut msg = String::from_str(prefix);
    msg.append(tok);
    msg.append("'");
    proof {
        assert(msg@ =~= prefix@ + tok@ + "'"@);
    }
    msg
}

/// Reads one runtime command from the tokens of a request text.
pub fn parse_tokens(tokens: &Vec<String>) -> (r: Result<PerswayCommand, String>)
    ensures
        match r {
            Ok(c) => parse_spec(strings_view(tokens@)) == Ok::<PerswayCommand, Seq<char>>(c),
            Err(m) => parse_spec(strings_view(tokens@)) matches Err(t) && m@ == t,
        },
{
    let ghost toks = strings_view(tokens@);
    let start: usize = if tokens.len() >= 3 && (str_eq(tokens[1].as_str(), "--socket-path")
        || str_eq(tokens[1].as_str(), "-s")) {
        3
    } else {
        1
    };
    if tokens.len() <= start {
        return Err(String::from_str("missing command"));
    }
    let sub = tokens[start].as_str();
    if str_eq(sub, "stack-focus-next") {
        finish_simple(tokens, start, PerswayCommand::StackFocusNext)
    } else if str_eq(sub, "stack-focus-prev") {
        finish_simple(tokens, start, PerswayCommand::StackFocusPrev)
    } else if str_eq(sub, "stack-swap-main") {
        finish_simple(tokens, start, PerswayCommand::StackSwapMain)
    } else if str_eq(sub, "stack-main-rotate-next") {
        finish_simple(tokens, start, PerswayCommand::StackMainRotateNext)
    } else if str_eq(sub, "change-layout") {
        parse_change_layout_tokens(tokens, start + 1)
    } else if str_eq(sub, "daemon") {
        Err(String::from_str("the daemon command is only accepted on the command line"))
    } else {
        Err(quoted_error("unknown command '", sub))
    }
}

/// Accepts a command with no further arguments.
fn finish_simple(tokens: &Vec<String>, start: usize, c: PerswayCommand) -> (r: Result<
    PerswayCommand,
    String,
>)
    requires
        start < tokens@.len(),
    ensures
        match r {
            Ok(rc) => simple_command(strings_view(tokens@), start as int, c) == Ok::<
                PerswayCommand,
                Seq<char>,
            >(rc) && rc == c,
            Err(m) => simple_command(strings_view(tokens@), start as int, c) matches Err(t) && m@
                == t,
        },
{
    if tokens.len() == start + 1 {
        Ok(c)
    } else {
        Err(quoted_error("unexpected argument '", tokens[start + 1].as_str()))
    }
}

/// Reads the layout-change arguments.
fn parse_change_layout_tokens(tokens: &Vec<String>, i: usize) -> (r: Result<
    PerswayCommand,
    String,
>)
    ensures
        match r {
            Ok(c) => parse_change_layout(strings_view(tokens@), i as int) == Ok::<
                PerswayCommand,
                Seq<char>,
            >(c),
            Err(m) => parse_change_layout(strings_view(tokens@), i as int) matches Err(t) && m@
                == t,
        },
{
    if tokens.len() < 2 || tokens.len() - 2 < i || !str_eq(tokens[i].as_str(), "--layout") {
        return Err(String::from_str("expected --layout <layout>"));
    }
    let name = tokens[i + 1].as_str();
    if str_eq(name, "spiral") {
        finish_plain(tokens, i + 2, WorkspaceLayout::Spiral)
    } else if str_eq(name, "manual") {
        finish_plain(tokens, i + 2, WorkspaceLayout::Manual)
    } else if str_eq(name, "stack_main") {
        parse_stack_opts_tokens(tokens, i + 2, STACK_MAIN_DEFAULT_SIZE, StackLayout::Stacked)
    } else {
        Err(quoted_error("I don't know about the layout '", name))
    }
}

/// Accepts a plain layout with no options.
fn finish_plain(tokens: &Vec<String>, i: usize, l: WorkspaceLayout) -> (r: Result<
    PerswayCommand,
    String,
>)
    requires
        i <= tokens@.len(),
    ensures
        match r {
            Ok(c) => finish_plain_layout(strings_view(tokens@), i as int, l) == Ok::<
                PerswayCommand,
                Seq<char>,
            >(c),
            Err(m) => finish_plain_layout(strings_view(tokens@), i as int, l) matches Err(t) && m@
                == t,
        },
{
    if tokens.len() == i {
        Ok(PerswayCommand::ChangeLayout { layout: l })
    } else {
        Err(quoted_error("unexpected argument '", tokens[i].as_str()))
    }
}

/// Reads the stack-main options left to right.
fn parse_stack_opts_tokens(tokens: &Vec<String>, start: usize, size0: u8, sl0: StackLayout) -> (r:
    Result<PerswayCommand, String>)
    ensures
        match r {
            Ok(c) => parse_stack_opts(strings_view(tokens@), start as int, size0, sl0) == Ok::<
                PerswayCommand,
                Seq<char>,
            >(c),
            Err(m) => parse_stack_opts(strings_view(tokens@), start as int, size0, sl0) matches Err(
                t,
            ) && m@ == t,
        },
{
    let ghost toks = strings_view(tokens@);
    let mut i: usize = start;
    let mut size: u8 = size0;
    let mut sl: StackLayout = sl0;
    while i < tokens.len()
        invariant
            start <= i,
            toks == strings_view(tokens@),
            parse_stack_opts(toks, start as int, size0, sl0) == parse_stack_opts(
                toks,
                i as int,
                size,
                sl,
            ),
        decreases tokens@.len() - i,
    {
        if str_eq(tokens[i].as_str(), "--size") || str_eq(tokens[i].as_str(), "-s") {
            if i + 1 < tokens.len() {
                match crate::strutil::parse_u64(tokens[i + 1].as_str()) {
                    Some(v) => {
                        if 10 <= v && v <= 90 {
                            size = v as u8;
                            i += 2;
                        } else {
                            return Err(String::from_str("size not in range 10-90"));
                        }
                    },
                    None => {
                        let mut msg = String::new();
                        msg.append(tokens[i + 1].as_str());
                        msg.append(" is not a valid size");
                        proof {
                            assert(msg@ =~= toks[i as int + 1] + " is not a valid size"@);
                        }
                        return Err(msg);
                    },
                }
            } else {
                return Err(String::from_str("expected a value after --size"));
            }
        } else if str_eq(tokens[i].as_str(), "--stack-layout") || str_eq(
            tokens[i].as_str(),
            "-l",
        ) {
            if i + 1 < tokens.len() {
                let name = tokens[i + 1].as_str();
                if str_eq(name, "tabbed") {
                    sl = StackLayout::Tabbed;
                    i += 2;
                } else if str_eq(name, "stacked") {
                    sl = StackLayout::Stacked;
                    i += 2;
                } else if str_eq(name, "tiled") {
                    sl = StackLayout::Tiled;
                    i += 2;
                } else {
                    return Err(quoted_error("I don't know about the stack layout '", name));
                }
            } else {
                return Err(String::from_str("expected a value after --stack-layout"));
            }
        } else {
            return Err(quoted_error("unexpected argument '", tokens[i].as_str()));
        }
    }
    Ok(PerswayCommand::ChangeLayout { layout: WorkspaceLayout::StackMain { size, stack_layout: sl } })
}

/// Reads one runtime command from a request text.
pub fn parse_message(msg: &str) -> (r: Result<PerswayCommand, String>)
    ensures
        match r {
            Ok(c) => parse_spec(tokens_of(msg@)) == Ok::<PerswayCommand, Seq<char>>(c),
            Err(m) => parse_spec(tokens_of(msg@)) matches Err(t) && m@ == t,
        },
{
    let tokens = tokenize(msg);
    parse_tokens(&tokens)
}

/// The single response line the control socket answers with.
pub fn response_line(r: &Result<PerswayCommand, String>) -> (out: String)
    ensures
        match r {
            Ok(_) => out@ == "success\n"@,
            Err(m) => out@ == "fail: "@ + m@ + "\n"@,
        },
{
    match r {
        Ok(_) => String::from_str("success\n"),
        Err(m) => {
            let mut out = String::from_str("fail: ");
            out.append(m.as_str());
            out.append("\n");
            proof {
                assert(out@ =~= "fail: "@ + m@ + "\n"@);
            }
            out
        },
    }
}

} // verus!
