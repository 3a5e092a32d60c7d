//! Watching address books. They offer no push, so each is polled for what
//! changed since its last checkpoint.

pub mod pump;
pub mod session;
