//! The compositor's command micro-language, as structured values.
//!
//! A batch is a sequence of clauses; each clause is an optional bracketed
//! selector followed by one action.  The engine computes batches as values
//! and renders them into the semicolon-separated wire text with an exact,
//! character-level contract.

use vstd::prelude::*;

use crate::strutil::{append_dec_i64, append_dec_u64, dec_int, dec_nat};

verus! {

/// A clause's selector: which nodes the action applies to.
#[derive(Debug, PartialEq)]
pub enum Selector {
    ConId(i64),
    ConMark(String),
}

/// One action of the command language, with its arguments.
#[derive(Debug, PartialEq)]
pub enum Action {
    Focus,
    SplitH,
    SplitV,
    LayoutTabbed,
    LayoutStacking,
    LayoutSplitH,
    /// `resize set width <n>`.
    ResizeWidth(u8),
    /// `move to workspace <name>`.
    MoveToWorkspace(String),
    /// `move to workspace number <num>`.
    MoveToWorkspaceNum(i32),
    /// `move container to mark <mark>`.
    MoveToMark(String),
    /// `mark --add <mark>`.
    MarkAdd(String),
    /// `unmark <mark>`.
    Unmark(String),
    /// `swap container with con_id <id>`.
    SwapWithId(i64),
    MoveUp,
    MoveRight,
    /// `workspace <name>`.
    Workspace(String),
    /// `workspace number <num>`.
    WorkspaceNum(i32),
    /// `move workspace to output <id>`.
    MoveWorkspaceToOutput(i64),
    /// `rename workspace to <name>`.
    RenameWorkspaceTo(String),
    /// `nop <comment>`: accepted and ignored by the compositor.
    Nop(String),
    /// Caller-supplied command text, passed through unchanged.
    Raw(String),
}

/// One clause: an optional selector, then an action.
#[derive(Debug, PartialEq)]
pub struct Clause {
    pub sel: Option<Selector>,
    pub action: Action,
}

/// The wire text of a selector.
pub open spec fn sel_text(s: Selector) -> Seq<char> {
    match s {
        Selector::ConId(id) => "[con_id="@ + dec_int(id as int) + "]"@,
        Selector::ConMark(m) => "[con_mark="@ + m@ + "]"@,
    }
}

/// The wire text of an action.
pub open spec fn action_text(a: Action) -> Seq<char> {
    match a {
        Action::Focus => "focus"@,
        Action::SplitH => "split h"@,
        Action::SplitV => "split v"@,
        Action::LayoutTabbed => "layout tabbed"@,
        Action::LayoutStacking => "layout stacking"@,
        Action::LayoutSplitH => "layout splith"@,
        Action::ResizeWidth(n) => "resize set width "@ + dec_nat(n as nat),
        Action::MoveToWorkspace(name) => "move to workspace "@ + name@,
        Action::MoveToWorkspaceNum(n) => "move to workspace number "@ + dec_int(n as int),
        Action::MoveToMark(m) => "move container to mark "@ + m@,
        Action::MarkAdd(m) => "mark --add "@ + m@,
        Action::Unmark(m) => "unmark "@ + m@,
        Action::SwapWithId(id) => "swap container with con_id "@ + dec_int(id as int),
        Action::MoveUp => "move up"@,
        Action::MoveRight => "move right"@,
        Action::Workspace(name) => "workspace "@ + name@,
        Action::WorkspaceNum(n) => "workspace number "@ + dec_int(n as int),
        Action::MoveWorkspaceToOutput(id) => "move workspace to output "@ + dec_int(id as int),
        Action::RenameWorkspaceTo(name) => "rename workspace to "@ + name@,
        Action::Nop(comment) => "nop "@ + comment@,
        Action::Raw(text) => text@,
    }
}

/// The wire text of one clause.
pub open spec fn clause_text(c: Clause) -> Seq<char> {
    match c.sel {
        Some(s) => sel_text(s) + " "@ + action_text(c.action),
        None => action_text(c.action),
    }
}

/// The wire text of a batch: clauses joined by `"; "`.
pub open spec fn batch_text(b: Seq<Clause>) -> Seq<char>
    decreases b.len(),
{
    if b.len() == 0 {
        Seq::empty()
    } else if b.len() == 1 {
        clause_text(b[0])
    } else {
        batch_text(b.drop_last()) + "; "@ + clause_text(b.last())
    }
}

/// Appends the wire text of a selector to `out`.
fn append_selector(out: &mut String, s: &Selector)
    ensures
        final(out)@ == old(out)@ + sel_text(*s),
{
    match s {
        Selector::ConId(id) => {
            out.append("[con_id=");
            append_dec_i64(out, *id);
            out.append("]");
            proof {
                assert(final(out)@ =~= old(out)@ + sel_text(*s));
            }
        },
        Selector::ConMark(m) => {
            out.append("[con_mark=");
            out.append(m.as_str());
            out.append("]");
            proof {
                assert(final(out)@ =~= old(out)@ + sel_text(*s));
            }
        },
    }
}

/// Appends the wire text of an action to `out`.
fn append_action(out: &mut String, a: &Action)
    ensures
        final(out)@ == old(out)@ + action_text(*a),
{
    match a {
        Action::Focus => {
            out.append("focus");
        },
        Action::SplitH => {
            out.append("split h");
        },
        Action::SplitV => {
            out.append("split v");
        },
        Action::LayoutTabbed => {
            out.append("layout tabbed");
        },
        Action::LayoutStacking => {
            out.append("layout stacking");
        },
        Action::LayoutSplitH => {
            out.append("layout splith");
        },
        Action::ResizeWidth(n) => {
            out.append("resize set width ");
            append_dec_u64(out, *n as u64);
            proof {
                assert(final(out)@ =~= old(out)@ + action_text(*a));
            }
        },
        Action::MoveToWorkspace(name) => {
            out.append("move to workspace ");
            out.append(name.as_str());
            proof {
                assert(final(out)@ =~= old(out)@ + action_text(*a));
            }
        },
        Action::MoveToWorkspaceNum(n) => {
            out.append("move to workspace number ");
            append_dec_i64(out, *n as i64);
            proof {
                assert(final(out)@ =~= old(out)@ + action_text(*a));
            }
        },
        Action::MoveToMark(m) => {
            out.append("move container to mark ");
            out.append(m.as_str());
            proof {
                assert(final(out)@ =~= old(out)@ + action_text(*a));
            }
        },
        Action::MarkAdd(m) => {
            out.append("mark --add ");
            out.append(m.as_str());
            proof {
                assert(final(out)@ =~= old(out)@ + action_text(*a));
            }
        },
        Action::Unmark(m) => {
            out.append("unmark ");
            out.append(m.as_str());
            proof {
                assert(final(out)@ =~= old(out)@ + action_text(*a));
            }
        },
        Action::SwapWithId(id) => {
            out.append("swap container with con_id ");
            append_dec_i64(out, *id);
            proof {
                assert(final(out)@ =~= old(out)@ + action_text(*a));
            }
        },
        Action::MoveUp => {
            out.append("move up");
        },
        Action::MoveRight => {
            out.append("move right");
        },
        Action::Workspace(name) => {
            out.append("workspace ");
            out.append(name.as_str());
            proof {
                assert(final(out)@ =~= old(out)@ + action_text(*a));
            }
        },
        Action::WorkspaceNum(n) => {
            out.append("workspace number ");
            append_dec_i64(out, *n as i64);
            proof {
                assert(final(out)@ =~= old(out)@ + action_text(*a));
            }
        },
        Action::MoveWorkspaceToOutput(id) => {
            out.append("move workspace to output ");
            append_dec_i64(out, *id);
            proof {
                assert(final(out)@ =~= old(out)@ + action_text(*a));
            }
        },
        Action::RenameWorkspaceTo(name) => {
            out.append("rename workspace to ");
            out.append(name.as_str());
            proof {
                assert(final(out)@ =~= old(out)@ + action_text(*a));
            }
        },
        Action::Nop(comment) => {
            out.append("nop ");
            out.append(comment.as_str());
            proof {
                assert(final(out)@ =~= old(out)@ + action_text(*a));
            }
        },
        Action::Raw(text) => {
            out.append(text.as_str());
        },
    }
}

/// Appends the wire text of one clause to `out`.
fn append_clause(out: &mut String, c: &Clause)
    ensures
        final(out)@ == old(out)@ + clause_text(*c),
{
    match &c.sel {
        Some(s) => {
            append_selector(out, s);
            out.append(" ");
            append_action(out, &c.action);
            proof {
                assert(final(out)@ =~= old(out)@ + clause_text(*c));
            }
        },
        None => {
            append_action(out, &c.action);
        },
    }
}

/// Renders a batch into the semicolon-separated wire text.
pub fn serialize_batch(b: &Vec<Clause>) -> (r: String)
    ensures
        r@ == batch_text(b@),
{
    let mut out = String::new();
    let mut i: usize = 0;
    proof {
        assert(out@ =~= batch_text(b@.subrange(0, 0)));
    }
    while i < b.len()
        invariant
            i <= b@.len(),
            out@ == batch_text(b@.subrange(0, i as int)),
        decreases b@.len() - i,
    {
        if i > 0 {
            out.append("; ");
        }
        append_clause(&mut out, &b[i]);
        proof {
            let t = b@.subrange(0, i as int + 1);
            assert(t.drop_last() =~= b@.subrange(0, i as int));
            assert(t.last() == b@[i as int]);
            assert(out@ =~= batch_text(b@.subrange(0, i as int + 1)));
        }
        i += 1;
    }
    proof {
        assert(b@.subrange(0, b@.len() as int) =~= b@);
    }
    out
}

} // verus!
