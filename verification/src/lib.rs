//! The verified core of a Jira board.

pub mod board;
pub mod board_laws;
pub mod dock;
pub mod environment;
pub mod filters;
pub mod handoff;
pub mod host;
pub mod jira;
pub mod json;
pub mod launch;
pub mod options;
pub mod screen;
pub mod text;
pub mod ticket;
