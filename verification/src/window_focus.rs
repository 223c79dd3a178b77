//! The focus hook: optional caller-supplied commands run when a window
//! gains or leaves focus.  The leave command is scoped to the previously
//! focused node; the enter command is unscoped, so its own criteria decide
//! targeting.

use vstd::prelude::*;

use crate::cmd::{Action, Clause};
use crate::node::WindowChange;

verus! {

/// The clause sequences behind a vector of batches.
pub open spec fn batches_view(s: Seq<Vec<Clause>>) -> Seq<Seq<Clause>> {
    s.map_values(|v: Vec<Clause>| v@)
}

/// The focus hook's configuration and its one piece of state: the node that
/// was focused before the current event.
#[derive(Debug)]
pub struct WindowFocus {
    pub on_window_focus: Option<String>,
    pub on_window_focus_leave: Option<String>,
    pub previously_focused_id: Option<i64>,
}

/// The leave batch: the leave command scoped to the previously focused node.
/// Nothing runs without a leave command or a previous node.
pub open spec fn leave_batches(hook: WindowFocus) -> Seq<Seq<Clause>> {
    match (hook.on_window_focus_leave, hook.previously_focused_id) {
        (Some(cmd), Some(id)) => seq![
            seq![
                (Clause {
                    sel: Some(crate::cmd::Selector::ConId(id)),
                    action: Action::Raw(cmd),
                }),
            ],
        ],
        _ => Seq::empty(),
    }
}

/// The enter batch: the unscoped focus command, if configured.
pub open spec fn enter_batches(hook: WindowFocus) -> Seq<Seq<Clause>> {
    match hook.on_window_focus {
        Some(cmd) => seq![seq![(Clause { sel: None, action: Action::Raw(cmd) })]],
        None => Seq::empty(),
    }
}

impl WindowFocus {
    /// A fresh hook with no previously focused node.
    pub fn new(on_window_focus: Option<String>, on_window_focus_leave: Option<String>) -> (r:
        WindowFocus)
        ensures
            r.on_window_focus == on_window_focus,
            r.on_window_focus_leave == on_window_focus_leave,
            r.previously_focused_id is None,
    {
        WindowFocus { on_window_focus, on_window_focus_leave, previously_focused_id: None }
    }

    /// Answers one window event: on focus, the leave batch then the enter
    /// batch; on close, the leave batch alone; nothing otherwise.  A focus
    /// event remembers the event's node as the previously focused one; a
    /// close event clears that state, so the next focus runs no leave
    /// command against a node that is already gone.
    pub fn handle(&mut self, change: WindowChange, container_id: i64) -> (r: Vec<Vec<Clause>>)
        ensures
            final(self).on_window_focus == old(self).on_window_focus,
            final(self).on_window_focus_leave == old(self).on_window_focus_leave,
            match change {
                WindowChange::Focus => batches_view(r@) == leave_batches(*old(self))
                    + enter_batches(*old(self)) && final(self).previously_focused_id == Some(
                    container_id,
                ),
                WindowChange::Close => batches_view(r@) == leave_batches(*old(self))
                    && final(self).previously_focused_id is None,
                _ => r@.len() == 0 && final(self).previously_focused_id
                    == old(self).previously_focused_id,
            },
    {
        let mut r: Vec<Vec<Clause>> = Vec::new();
        match change {
            WindowChange::Focus => {
                self.push_leave_batch(&mut r);
                if let Some(cmd) = &self.on_window_focus {
                    let mut batch: Vec<Clause> = Vec::new();
                    batch.push(Clause { sel: None, action: Action::Raw(cmd.clone()) });
                    r.push(batch);
                }
                proof {
                    assert(batches_view(r@) =~= leave_batches(*old(self)) + enter_batches(
                        *old(self),
                    ));
                }
                self.previously_focused_id = Some(container_id);
                r
            },
            WindowChange::Close => {
                self.push_leave_batch(&mut r);
                proof {
                    assert(batches_view(r@) =~= leave_batches(*old(self)));
                }
                self.previously_focused_id = None;
                r
            },
            _ => r,
        }
    }

    /// Appends the leave batch, when a leave command and a previous node
    /// exist.
    fn push_leave_batch(&self, r: &mut Vec<Vec<Clause>>)
        ensures
            batches_view(final(r)@) == batches_view(old(r)@) + leave_batches(*self),
    {
        if let Some(cmd) = &self.on_window_focus_leave {
            if let Some(id) = self.previously_focused_id {
                let mut batch: Vec<Clause> = Vec::new();
                batch.push(
                    Clause { sel: Some(crate::cmd::Selector::ConId(id)), action: Action::Raw(
                        cmd.clone(),
                    ) },
                );
                r.push(batch);
                proof {
                    assert(batches_view(final(r)@) =~= batches_view(old(r)@) + leave_batches(*self));
                }
                return ;
            }
        }
        proof {
            assert(batches_view(final(r)@) =~= batches_view(old(r)@) + leave_batches(*self));
        }
    }
}

} // verus!
