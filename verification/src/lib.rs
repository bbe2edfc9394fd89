//! Triage of unread mail in a terminal: raw messages are normalised into
//! displayable documents, kept in a mailbox with a selection cursor, and
//! driven by a small controller that maps input events to changes of state.

pub mod decoder;
pub mod gmail_api;
pub mod mailbox;
pub mod renderer;
pub mod text;
pub mod ui;
