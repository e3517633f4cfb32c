//! Session and turn engine of a terminal coding agent, with the pieces of
//! its frontends that decide what is shown.
//!
//! - `session`: at most one running task, the ordered event stream, tool
//!   call bookkeeping, approvals and the conversation history.
//! - `protocol`: the events and the values they carry.
//! - `config`, `env`, `mcp`: MCP server entries, the environment of spawned
//!   commands and servers, and tool results.
//! - `exec_events`: the headless runner's item view of the event stream.
//! - `auth_header`: the `Authorization` header read from standard input.
//! - `palette`, `footer`, `approval_overlay`, `cells`, `presets`: what the
//!   terminal frontend shows.
//! - `text`: string helpers shared by the others.

pub mod approval_overlay;
pub mod auth_header;
pub mod cells;
pub mod config;
pub mod env;
pub mod exec_events;
pub mod footer;
pub mod mcp;
pub mod palette;
pub mod presets;
pub mod protocol;
pub mod session;
pub mod text;
