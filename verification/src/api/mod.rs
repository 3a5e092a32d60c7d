//! The control API: what each request does, and what it is answered.

pub mod callback;
pub mod caller;
pub mod popup;
pub mod purchase;
pub mod reply;
pub mod service;
pub mod sign_in;
pub mod view;
