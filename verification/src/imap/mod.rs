//! Watching mailboxes: what a session decides, and what a watcher does with
//! what the server says.

pub mod pump;
pub mod session;
