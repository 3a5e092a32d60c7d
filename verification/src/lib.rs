//! A watch server's decisions, verified.

pub mod api;
pub mod billing;
pub mod carddav;
pub mod config;
pub mod delivery;
pub mod digest;
pub mod discover;
pub mod email;
pub mod event;
pub mod guard;
pub mod idset;
pub mod imap;
pub mod json;
pub mod laws;
pub mod live;
pub mod metering;
pub mod migration;
pub mod oauth;
pub mod random;
pub mod ratelimit;
pub mod rows;
pub mod serve;
pub mod signature;
pub mod sort;
pub mod store;
pub mod supervisor;
pub mod sweep;
pub mod table;
pub mod text;
pub mod util;
pub mod weburl;
