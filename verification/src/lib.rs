//! mtrack lets one set of users upload their current position and another set of users,
//! once logged in, download all uploaded positions.
//!
//! This crate holds the application's request logic: session handling, cookie parsing,
//! user lookups and the decisions of every HTTP handler, stated over plain values.

pub mod cookies;
pub mod decimal;
pub mod handlers;
pub mod laws;
pub mod reply;
pub mod runtime;
pub mod session_cookie;
pub mod state;
pub mod users;
