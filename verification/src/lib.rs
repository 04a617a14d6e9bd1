//! Verified core of a command-line daemon that keeps a daily written record
//! of the focused window's text: path and text rules, PID file and helper-reply
//! parsing, status and snapshot reports, and the decisions of its commands.

pub mod text;
pub mod config;
pub mod daemon;
pub mod reader;
pub mod cli;
