//! Decision core of a tiling-compositor layout daemon.
//!
//! The daemon observes window lifecycle events from a compositor and answers
//! with batches of textual tree-mutation commands.  Everything that decides
//! *what* to send lives here as verified code over an owned snapshot model of
//! the compositor tree; the asynchronous transport around it stays outside.

pub mod cmd;
pub mod commands;
pub mod laws;
pub mod layout;
pub mod message_handler;
pub mod node;
pub mod relayout;
pub mod renamer;
pub mod spiral;
pub mod stack_main;
pub mod strutil;
pub mod util;
pub mod window_focus;
