//! Blocking and unblocking wireless stations through a controller's
//! session-based HTTP API: address checks, configuration checks, and the
//! login-then-command workflow as a verified state machine.
pub mod address;
pub mod config;
pub mod json;
pub mod response;
pub mod session;
