//! A terminal launcher for frequently used shell commands.
//!
//! The crate holds the verified core of the launcher: the event-driven
//! page state machine behind the command list (cursor movement, deletion,
//! note popup), the navigator that owns the pages, and the reverse
//! scanner that recovers the most recent usable command from an
//! append-only shell history log. Terminal I/O, persistence and prompts
//! live outside, in the surrounding binary.

pub mod dot_toml;
pub mod history;
pub mod nav;
pub mod page;
pub mod quick_page;
pub mod utils;
