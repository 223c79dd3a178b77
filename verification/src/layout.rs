//! The layout disciplines a workspace can run under, and their textual forms.

use vstd::prelude::*;

use crate::strutil::{self, dec_nat, parsed_u64, str_eq};

verus! {

/// Default share of the width, in percent, that the main area takes in the
/// stack-main discipline.
pub const STACK_MAIN_DEFAULT_SIZE: u8 = 70;

/// The compositor layout the side stack runs under.
#[derive(Clone, Copy, Debug, PartialEq, Eq, Structural)]
pub enum StackLayout {
    Tabbed,
    Stacked,
    Tiled,
}

/// The layout discipline of one workspace.
#[derive(Clone, Copy, Debug, PartialEq, Eq, Structural)]
pub enum WorkspaceLayout {
    /// Alternate the split orientation by the focused window's aspect ratio.
    Spiral,
    /// One main window beside a stack of the rest.
    StackMain { size: u8, stack_layout: StackLayout },
    /// The compositor's own manual tiling; the engine stays out of the way.
    Manual,
}

/// The textual form of a stack layout.
pub open spec fn stack_layout_text(l: StackLayout) -> Seq<char> {
    match l {
        StackLayout::Tabbed => "tabbed"@,
        StackLayout::Stacked => "stacked"@,
        StackLayout::Tiled => "tiled"@,
    }
}

/// The textual form of a workspace layout.
pub open spec fn workspace_layout_text(l: WorkspaceLayout) -> Seq<char> {
    match l {
        WorkspaceLayout::Spiral => "spiral"@,
        WorkspaceLayout::StackMain { size, stack_layout } => "stack_main "@ + stack_layout_text(
            stack_layout,
        ) + " "@ + dec_nat(size as nat),
        WorkspaceLayout::Manual => "manual"@,
    }
}

impl StackLayout {
    /// Reads a stack layout from its name.
    pub fn from_str(s: &str) -> (r: Result<StackLayout, String>)
        ensures
            match r {
                Ok(l) => (s@ == "tabbed"@ && l == StackLayout::Tabbed) || (s@ == "stacked"@ && l
                    == StackLayout::Stacked) || (s@ == "tiled"@ && l == StackLayout::Tiled),
                Err(msg) => s@ != "tabbed"@ && s@ != "stacked"@ && s@ != "tiled"@ && msg@
                    == "I don't know about the stack layout '"@ + s@ + "'"@,
            },
    {
        if str_eq(s, "tabbed") {
            Ok(StackLayout::Tabbed)
        } else if str_eq(s, "stacked") {
            Ok(StackLayout::Stacked)
        } else if str_eq(s, "tiled") {
            Ok(StackLayout::Tiled)
        } else {
            let mut msg = String::from_str("I don't know about the stack layout '");
            msg.append(s);
            msg.append("'");
            proof {
                assert(msg@ =~= "I don't know about the stack layout '"@ + s@ + "'"@);
            }
            Err(msg)
        }
    }

    /// The layout's name.
    pub fn to_text(&self) -> (r: String)
        ensures
            r@ == stack_layout_text(*self),
    {
        match self {
            StackLayout::Tabbed => String::from_str("tabbed"),
            StackLayout::Stacked => String::from_str("stacked"),
            StackLayout::Tiled => String::from_str("tiled"),
        }
    }
}

impl WorkspaceLayout {
    /// Reads a workspace layout from its name; the stack-main name carries
    /// the default size and stack layout.
    pub fn from_str(s: &str) -> (r: Result<WorkspaceLayout, String>)
        ensures
            match r {
                Ok(l) => (s@ == "spiral"@ && l == WorkspaceLayout::Spiral) || (s@ == "stack_main"@
                    && l == (WorkspaceLayout::StackMain {
                    size: STACK_MAIN_DEFAULT_SIZE,
                    stack_layout: StackLayout::Stacked,
                })) || (s@ == "manual"@ && l == WorkspaceLayout::Manual),
                Err(msg) => s@ != "spiral"@ && s@ != "stack_main"@ && s@ != "manual"@ && msg@
                    == "I don't know about the layout '"@ + s@ + "'"@,
            },
    {
        if str_eq(s, "spiral") {
            Ok(WorkspaceLayout::Spiral)
        } else if str_eq(s, "stack_main") {
            Ok(
                WorkspaceLayout::StackMain {
                    size: STACK_MAIN_DEFAULT_SIZE,
                    stack_layout: StackLayout::Stacked,
                },
            )
        } else if str_eq(s, "manual") {
            Ok(WorkspaceLayout::Manual)
        } else {
            let mut msg = String::from_str("I don't know about the layout '");
            msg.append(s);
            msg.append("'");
            proof {
                assert(msg@ =~= "I don't know about the layout '"@ + s@ + "'"@);
            }
            Err(msg)
        }
    }

    /// The layout's textual form, with the stack-main parameters spelled out.
    pub fn to_text(&self) -> (r: String)
        ensures
            r@ == workspace_layout_text(*self),
    {
        match self {
            WorkspaceLayout::Spiral => String::from_str("spiral"),
            WorkspaceLayout::StackMain { size, stack_layout } => {
                let mut out = String::from_str("stack_main ");
                let lt = stack_layout.to_text();
                out.append(lt.as_str());
                out.append(" ");
                strutil::append_dec_u64(&mut out, *size as u64);
                proof {
                    assert(out@ =~= workspace_layout_text(*self));
                }
                out
            },
            WorkspaceLayout::Manual => String::from_str("manual"),
        }
    }
}

/// Reads a stack-main size argument: a decimal number between 10 and 90.
pub fn size_in_range(s: &str) -> (r: Result<u8, String>)
    ensures
        match r {
            Ok(v) => parsed_u64(s@) == Some(v as nat) && 10 <= v <= 90,
            Err(msg) => match parsed_u64(s@) {
                Some(v) => !(10 <= v <= 90) && msg@ == "size not in range 10-90"@,
                None => msg@ == s@ + " is not a valid size"@,
            },
        },
{
    match strutil::parse_u64(s) {
        Some(v) => {
            if 10 <= v && v <= 90 {
                Ok(v as u8)
            } else {
                Err(String::from_str("size not in range 10-90"))
            }
        },
        None => {
            let mut msg = String::from_str("");
            msg.append(s);
            msg.append(" is not a valid size");
            proof {
                reveal_strlit("");
                assert(msg@ =~= s@ + " is not a valid size"@);
            }
            Err(msg)
        },
    }
}

} // verus!
