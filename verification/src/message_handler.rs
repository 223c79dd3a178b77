//! The event/command dispatcher and the per-workspace policy store: the only
//! mutable state the controller owns.

use vstd::prelude::*;

use std::collections::HashMap;

use crate::commands::PerswayCommand;
use crate::layout::{StackLayout, WorkspaceLayout};
use crate::node::WindowChange;

verus! {

broadcast use vstd::std_specs::hash::group_hash_axioms;

/// The active layout discipline of one workspace.
#[derive(Clone, Copy, Debug)]
pub struct WorkspaceConfig {
    pub layout: WorkspaceLayout,
}

/// The layout discipline a workspace number runs under: its stored entry, or
/// the daemon-wide default before any entry exists.
pub open spec fn effective_layout(
    m: Map<i32, WorkspaceConfig>,
    default_layout: WorkspaceLayout,
    ws_num: i32,
) -> WorkspaceLayout {
    if m.contains_key(ws_num) {
        m[ws_num].layout
    } else {
        default_layout
    }
}

/// Which layout handler one window event is routed to.
#[derive(Clone, Copy, Debug, PartialEq, Eq, Structural)]
pub enum LayoutDispatch {
    /// Manual tiling, or a change the active discipline ignores.
    Idle,
    /// Run the spiral policy on the focused node.
    Spiral,
    /// Run the stack-main insertion handler.
    StackNew { size: u8, stack_layout: StackLayout },
    /// Run the stack-main close handler.
    StackClose { size: u8 },
    /// Run the stack-main move handler.
    StackMove { size: u8, stack_layout: StackLayout },
}

/// Everything one window event fans out to.
#[derive(Clone, Copy, Debug, PartialEq, Eq, Structural)]
pub struct EventDispatch {
    pub layout: LayoutDispatch,
    /// Offer the event to the workspace renamer: only focus and close
    /// events, and only with renaming enabled.
    pub rename: bool,
}

/// The change kinds the workspace renamer acts on.
pub open spec fn renamer_handles(change: WindowChange) -> bool {
    change == WindowChange::Focus || change == WindowChange::Close
}

/// How the layout policy active for a workspace routes one change kind.
pub open spec fn dispatch_for(layout: WorkspaceLayout, change: WindowChange) -> LayoutDispatch {
    match layout {
        WorkspaceLayout::Spiral => match change {
            WindowChange::Focus => LayoutDispatch::Spiral,
            _ => LayoutDispatch::Idle,
        },
        WorkspaceLayout::StackMain { size, stack_layout } => match change {
            WindowChange::New => LayoutDispatch::StackNew { size, stack_layout },
            WindowChange::Close => LayoutDispatch::StackClose { size },
            WindowChange::Move => LayoutDispatch::StackMove { size, stack_layout },
            _ => LayoutDispatch::Idle,
        },
        WorkspaceLayout::Manual => LayoutDispatch::Idle,
    }
}

/// What one control command asks the daemon to do.
#[derive(Clone, Copy, Debug, PartialEq, Eq, Structural)]
pub enum CommandAction {
    /// Nothing: the command does not apply to the active discipline, or asks
    /// for the layout already in place.
    Ignore,
    /// Migrate the workspace's windows through the scratch workspace so the
    /// new discipline can lay them out afresh.
    Relayout { ws_num: i32, layout: WorkspaceLayout },
    /// Run the stack-main focus-next operation.
    FocusNext,
    /// Run the stack-main focus-prev operation.
    FocusPrev,
    /// Run the stack-main swap-main operation.
    SwapMain,
    /// Run the stack-main rotation.
    RotateNext,
}

/// The dispatcher: routes events to the policy active for the focused
/// workspace and control commands to the matching operation.
#[derive(Debug)]
pub struct MessageHandler {
    pub workspace_config: HashMap<i32, WorkspaceConfig>,
    pub default_layout: WorkspaceLayout,
    pub workspace_renaming: bool,
    pub on_window_focus: Option<String>,
    pub on_window_focus_leave: Option<String>,
}

impl MessageHandler {
    /// A fresh dispatcher with an empty policy store.
    pub fn new(
        default_layout: WorkspaceLayout,
        workspace_renaming: bool,
        on_window_focus: Option<String>,
        on_window_focus_leave: Option<String>,
    ) -> (r: MessageHandler)
        ensures
            r.workspace_config@ == Map::<i32, WorkspaceConfig>::empty(),
            r.default_layout == default_layout,
            r.workspace_renaming == workspace_renaming,
            r.on_window_focus == on_window_focus,
            r.on_window_focus_leave == on_window_focus_leave,
    {
        MessageHandler {
            workspace_config: HashMap::new(),
            default_layout,
            workspace_renaming,
            on_window_focus,
            on_window_focus_leave,
        }
    }

    /// The configuration of one workspace: the stored entry, created from the
    /// daemon-wide default on first reference.  Entries are never removed;
    /// workspace numbers are reused by the compositor, not recycled here.
    pub fn get_workspace_config(&mut self, ws_num: i32) -> (r: WorkspaceConfig)
        ensures
            r.layout == effective_layout(
                old(self).workspace_config@,
                old(self).default_layout,
                ws_num,
            ),
            final(self).workspace_config@ == old(self).workspace_config@.insert(ws_num, r),
            final(self).default_layout == old(self).default_layout,
            final(self).workspace_renaming == old(self).workspace_renaming,
            final(self).on_window_focus == old(self).on_window_focus,
            final(self).on_window_focus_leave == old(self).on_window_focus_leave,
    {
        match self.workspace_config.get(&ws_num) {
            Some(c) => {
                let r = *c;
                proof {
                    assert(final(self).workspace_config@ =~= old(self).workspace_config@.insert(
                        ws_num,
                        r,
                    ));
                }
                r
            },
            None => {
                let c = WorkspaceConfig { layout: self.default_layout };
                self.workspace_config.insert(ws_num, c);
                c
            },
        }
    }

    /// Routes one window event: the layout handler chosen by the focused
    /// workspace's discipline, and whether the renamer is offered the event.
    /// The focused workspace gains a store entry on first reference.
    pub fn handle_event(&mut self, change: WindowChange, focused_ws_num: i32) -> (r: EventDispatch)
        ensures
            r.layout == dispatch_for(
                effective_layout(
                    old(self).workspace_config@,
                    old(self).default_layout,
                    focused_ws_num,
                ),
                change,
            ),
            r.rename == (old(self).workspace_renaming && renamer_handles(change)),
            final(self).workspace_config@ == old(self).workspace_config@.insert(
                focused_ws_num,
                (WorkspaceConfig {
                    layout: effective_layout(
                        old(self).workspace_config@,
                        old(self).default_layout,
                        focused_ws_num,
                    ),
                }),
            ),
            final(self).default_layout == old(self).default_layout,
            final(self).workspace_renaming == old(self).workspace_renaming,
            final(self).on_window_focus == old(self).on_window_focus,
            final(self).on_window_focus_leave == old(self).on_window_focus_leave,
    {
        let config = self.get_workspace_config(focused_ws_num);
        let layout = match config.layout {
            WorkspaceLayout::Spiral => match change {
                WindowChange::Focus => LayoutDispatch::Spiral,
                _ => LayoutDispatch::Idle,
            },
            WorkspaceLayout::StackMain { size, stack_layout } => match change {
                WindowChange::New => LayoutDispatch::StackNew { size, stack_layout },
                WindowChange::Close => LayoutDispatch::StackClose { size },
                WindowChange::Move => LayoutDispatch::StackMove { size, stack_layout },
                _ => LayoutDispatch::Idle,
            },
            WorkspaceLayout::Manual => LayoutDispatch::Idle,
        };
        let rename = self.workspace_renaming && matches!(
            change,
            WindowChange::Focus | WindowChange::Close,
        );
        EventDispatch { layout, rename }
    }

    /// Routes one control command against the focused workspace.  A layout
    /// change to the discipline already active is a no-op, so no relayout
    /// churn follows; a differing one stores the new discipline and asks for
    /// the relayout.  Stack operations apply only under the stack-main
    /// discipline.  The daemon-start command does not arrive here; it is
    /// ignored.
    pub fn handle_command(&mut self, cmd: &PerswayCommand, focused_ws_num: i32) -> (r:
        CommandAction)
        ensures
            ({
                let cur = effective_layout(
                    old(self).workspace_config@,
                    old(self).default_layout,
                    focused_ws_num,
                );
                let stored = final(self).workspace_config@;
                let kept = old(self).workspace_config@.insert(
                    focused_ws_num,
                    (WorkspaceConfig { layout: cur }),
                );
                &&& final(self).default_layout == old(self).default_layout
                &&& final(self).workspace_renaming == old(self).workspace_renaming
                &&& final(self).on_window_focus == old(self).on_window_focus
                &&& final(self).on_window_focus_leave == old(self).on_window_focus_leave
                &&& match cmd {
                    PerswayCommand::ChangeLayout { layout } => if cur != *layout {
                        r == (CommandAction::Relayout { ws_num: focused_ws_num, layout: *layout })
                            && stored == old(self).workspace_config@.insert(
                            focused_ws_num,
                            (WorkspaceConfig { layout: *layout }),
                        )
                    } else {
                        r == CommandAction::Ignore && stored == kept
                    },
                    PerswayCommand::StackFocusNext => stored == kept && r == (
                    if cur is StackMain {
                        CommandAction::FocusNext
                    } else {
                        CommandAction::Ignore
                    }),
                    PerswayCommand::StackFocusPrev => stored == kept && r == (
                    if cur is StackMain {
                        CommandAction::FocusPrev
                    } else {
                        CommandAction::Ignore
                    }),
                    PerswayCommand::StackSwapMain => stored == kept && r == (
                    if cur is StackMain {
                        CommandAction::SwapMain
                    } else {
                        CommandAction::Ignore
                    }),
                    PerswayCommand::StackMainRotateNext => stored == kept && r == (
                    if cur is StackMain {
                        CommandAction::RotateNext
                    } else {
                        CommandAction::Ignore
                    }),
                    PerswayCommand::Daemon(_) => stored == kept && r == CommandAction::Ignore,
                }
            }),
    {
        let current = self.get_workspace_config(focused_ws_num);
        match cmd {
            PerswayCommand::ChangeLayout { layout } => {
                if !layouts_equal(&current.layout, layout) {
                    self.workspace_config.insert(
                        focused_ws_num,
                        WorkspaceConfig { layout: *layout },
                    );
                    CommandAction::Relayout { ws_num: focused_ws_num, layout: *layout }
                } else {
                    CommandAction::Ignore
                }
            },
            PerswayCommand::StackFocusNext => {
                if matches!(current.layout, WorkspaceLayout::StackMain { .. }) {
                    CommandAction::FocusNext
                } else {
                    CommandAction::Ignore
                }
            },
            PerswayCommand::StackFocusPrev => {
                if matches!(current.layout, WorkspaceLayout::StackMain { .. }) {
                    CommandAction::FocusPrev
                } else {
                    CommandAction::Ignore
                }
            },
            PerswayCommand::StackSwapMain => {
                if matches!(current.layout, WorkspaceLayout::StackMain { .. }) {
                    CommandAction::SwapMain
                } else {
                    CommandAction::Ignore
                }
            },
            PerswayCommand::StackMainRotateNext => {
                if matches!(current.layout, WorkspaceLayout::StackMain { .. }) {
                    CommandAction::RotateNext
                } else {
                    CommandAction::Ignore
                }
            },
            PerswayCommand::Daemon(_) => CommandAction::Ignore,
        }
    }
}

/// Structural equality of two workspace layouts.
fn layouts_equal(a: &WorkspaceLayout, b: &WorkspaceLayout) -> (r: bool)
    ensures
        r == (a == b),
{
    match (a, b) {
        (WorkspaceLayout::Spiral, WorkspaceLayout::Spiral) => true,
        (WorkspaceLayout::Manual, WorkspaceLayout::Manual) => true,
        (
            WorkspaceLayout::StackMain { size: sa, stack_layout: la },
            WorkspaceLayout::StackMain { size: sb, stack_layout: lb },
        ) => *sa == *sb && matches!(
            (la, lb),
            (StackLayout::Tabbed, StackLayout::Tabbed) | (StackLayout::Stacked, StackLayout::Stacked)
                | (StackLayout::Tiled, StackLayout::Tiled),
        ),
        _ => false,
    }
}

/// After a layout change to `l`, the workspace's effective layout is `l`:
/// the identical change asked for again is a no-op, so no second relayout
/// follows.
pub proof fn lemma_change_layout_idempotent(
    m: Map<i32, WorkspaceConfig>,
    default_layout: WorkspaceLayout,
    ws_num: i32,
    l: WorkspaceLayout,
)
    ensures
        effective_layout(m.insert(ws_num, (WorkspaceConfig { layout: l })), default_layout, ws_num)
            == l,
{
}

} // verus!
