//! The workspace renamer: names a workspace after the application focused on
//! it, keeping the workspace's own number prefix.

use vstd::prelude::*;

use crate::cmd::{Action, Clause};
use crate::node::{Node, Workspace};
use crate::strutil::{prefix_before, prefix_before_char, trim_leading, trim_leading_str,
    trim_trailing, trim_trailing_str};
use crate::util::{should_skip_rename_of_workspace, skip_ws_name};

verus! {

/// What the standard library's lowercase conversion returns: a function of
/// the characters alone.
pub uninterp spec fn lower_of(s: Seq<char>) -> Seq<char>;

/// Relies on str::to_lowercase from std: the string's lowercase equivalent,
/// depending on its characters alone; an empty string stays empty.
#[verifier::external_body]
fn to_lowercase(s: &str) -> (r: String)
    ensures
        r@ == lower_of(s@),
        s@.len() == 0 ==> r@.len() == 0,
{
    s.to_lowercase()
}

/// The view of an optional string when it is present and non-empty.
pub open spec fn nonempty_view(o: Option<String>) -> Option<Seq<char>> {
    match o {
        Some(s) => if s@.len() > 0 {
            Some(s@)
        } else {
            None
        },
        None => None,
    }
}

/// The window class a node reports, when present and non-empty.
pub open spec fn class_view(n: Node) -> Option<Seq<char>> {
    match n.window_properties {
        Some(p) => nonempty_view(p.class),
        None => None,
    }
}

/// Where an application name comes from, in priority order: the node's
/// application id, its window class, then its title up to the first `|`
/// separator.
pub open spec fn app_name_source(n: Node) -> Option<Seq<char>> {
    if nonempty_view(n.app_id) is Some {
        nonempty_view(n.app_id)
    } else if class_view(n) is Some {
        class_view(n)
    } else {
        match nonempty_view(n.name) {
            Some(nm) => Some(prefix_before(nm, '|')),
            None => None,
        }
    }
}

/// The derived application name: the source with decorative leading and
/// trailing dashes and trailing spaces removed, lowercased.
pub open spec fn app_name_of(n: Node) -> Option<Seq<char>> {
    match app_name_source(n) {
        Some(s) => Some(lower_of(trim_trailing(trim_trailing(trim_leading(s, '-'), '-'), ' '))),
        None => None,
    }
}

/// Derives the application name from a window node, if any of its sources is
/// set.
pub fn get_app_name(container: &Node) -> (r: Option<String>)
    ensures
        match r {
            Some(s) => app_name_of(*container) == Some(s@),
            None => app_name_of(*container) is None,
        },
{
    let source: Option<&str> = if let Some(app_id) = &container.app_id {
        if app_id.as_str().unicode_len() > 0 {
            Some(app_id.as_str())
        } else {
            None
        }
    } else {
        None
    };
    let source: Option<&str> = match source {
        Some(s) => Some(s),
        None => {
            let class: Option<&str> = match &container.window_properties {
                Some(p) => match &p.class {
                    Some(c) => if c.as_str().unicode_len() > 0 {
                        Some(c.as_str())
                    } else {
                        None
                    },
                    None => None,
                },
                None => None,
            };
            match class {
                Some(c) => Some(c),
                None => {
                    match &container.name {
                        Some(nm) => if nm.as_str().unicode_len() > 0 {
                            Some(prefix_before_char(nm.as_str(), '|'))
                        } else {
                            None
                        },
                        None => None,
                    }
                },
            }
        },
    };
    match source {
        Some(s) => {
            let t = trim_leading_str(s, '-');
            let t = trim_trailing_str(t, '-');
            let t = trim_trailing_str(t, ' ');
            Some(to_lowercase(t))
        },
        None => None,
    }
}

/// The rename target: the workspace's number prefix, a separating colon, and
/// the application name.
pub open spec fn rename_target(ws_name: Seq<char>, app: Seq<char>) -> Seq<char> {
    prefix_before(ws_name, ':') + ": "@ + app
}

/// Computes the rename command for the focused workspace after a focus or
/// close event on the given node.  An empty batch means no rename: the
/// workspace is left alone or no application name can be derived.
pub fn rename_workspace_cmd(focused_ws: &Workspace, container: &Node) -> (r: Vec<Clause>)
    ensures
        if skip_ws_name(focused_ws.name@) {
            r@.len() == 0
        } else {
            match app_name_of(*container) {
                Some(a) => {
                    &&& r@.len() == 1
                    &&& r@[0].sel is None
                    &&& r@[0].action matches Action::RenameWorkspaceTo(t) && t@ == rename_target(
                        focused_ws.name@,
                        a,
                    )
                },
                None => r@.len() == 0,
            }
        },
{
    if should_skip_rename_of_workspace(focused_ws) {
        return Vec::new();
    }
    match get_app_name(container) {
        Some(app) => {
            let num_prefix = prefix_before_char(focused_ws.name.as_str(), ':');
            let mut target = String::from_str(num_prefix);
            target.append(": ");
            target.append(app.as_str());
            let mut batch: Vec<Clause> = Vec::new();
            batch.push(Clause { sel: None, action: Action::RenameWorkspaceTo(target) });
            proof {
                assert(batch@[0].action->RenameWorkspaceTo_0@ =~= rename_target(
                    focused_ws.name@,
                    app@,
                ));
            }
            batch
        },
        None => Vec::new(),
    }
}

} // verus!
