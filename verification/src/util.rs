//! Workspace predicates shared by the policies, and the control-socket path.

use vstd::prelude::*;

use crate::node::Workspace;
use crate::strutil::str_eq;

verus! {

/// The name of the scratch workspace the relayout coordinator parks windows
/// on: unlikely to collide with user workspace names.
pub open spec fn persway_tmp_ws_name() -> Seq<char> {
    "\u{25d5}\u{203f}\u{25d5}"@
}

/// The compositor's own scratchpad workspace name.
pub open spec fn scratchpad_ws_name() -> Seq<char> {
    "__i3_scratch"@
}

/// The scratch workspace name as a value.
pub fn persway_tmp_workspace() -> (r: String)
    ensures
        r@ == persway_tmp_ws_name(),
{
    String::from_str("\u{25d5}\u{203f}\u{25d5}")
}

/// Whether this is the compositor's scratchpad workspace.
pub fn is_scratchpad_workspace(ws: &Workspace) -> (r: bool)
    ensures
        r == (ws.name@ == scratchpad_ws_name()),
{
    str_eq(ws.name.as_str(), "__i3_scratch")
}

/// Whether this is the engine's own scratch workspace.
pub fn is_persway_tmp_workspace(ws: &Workspace) -> (r: bool)
    ensures
        r == (ws.name@ == persway_tmp_ws_name()),
{
    str_eq(ws.name.as_str(), "\u{25d5}\u{203f}\u{25d5}")
}

/// A workspace the layout policies must leave alone.
pub open spec fn skip_ws_name(name: Seq<char>) -> bool {
    name == persway_tmp_ws_name() || name == scratchpad_ws_name()
}

/// Whether the layout policies must leave this workspace alone.
pub fn should_skip_layout_of_workspace(ws: &Workspace) -> (r: bool)
    ensures
        r == skip_ws_name(ws.name@),
{
    is_persway_tmp_workspace(ws) || is_scratchpad_workspace(ws)
}

/// Whether the workspace renamer must leave this workspace alone.
pub fn should_skip_rename_of_workspace(ws: &Workspace) -> (r: bool)
    ensures
        r == skip_ws_name(ws.name@),
{
    is_persway_tmp_workspace(ws) || is_scratchpad_workspace(ws)
}

/// Picks the control-socket path: an explicit override wins; otherwise the
/// default path under the runtime directory (falling back to `/tmp`),
/// parameterized by the display-session identifier (falling back to
/// `unknown`).
pub fn resolve_socket_path(
    explicit: Option<String>,
    runtime_dir: Option<String>,
    display: Option<String>,
) -> (r: String)
    ensures
        match explicit {
            Some(p) => r@ == p@,
            None => r@ == (match runtime_dir {
                Some(d) => d@,
                None => "/tmp"@,
            }) + "/persway-"@ + (match display {
                Some(w) => w@,
                None => "unknown"@,
            }) + ".sock"@,
        },
{
    match explicit {
        Some(p) => p,
        None => {
            let dir: &str = match &runtime_dir {
                Some(d) => d.as_str(),
                None => "/tmp",
            };
            let disp: &str = match &display {
                Some(w) => w.as_str(),
                None => "unknown",
            };
            socket_path_in(dir, disp)
        },
    }
}

/// The default control-socket path under the given runtime directory,
/// parameterized by the display-session identifier.
pub fn socket_path_in(runtime_dir: &str, display: &str) -> (r: String)
    ensures
        r@ == runtime_dir@ + "/persway-"@ + display@ + ".sock"@,
{
    let mut out = String::new();
    out.append(runtime_dir);
    out.append("/persway-");
    out.append(display);
    out.append(".sock");
    proof {
        assert(out@ =~= runtime_dir@ + "/persway-"@ + display@ + ".sock"@);
    }
    out
}

} // verus!
