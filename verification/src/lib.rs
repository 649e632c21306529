//! Decisions and text rendering for a command-line client that asks a model
//! rig one question through the rig's MCP server.

pub mod text;
pub mod display;
pub mod rig;
pub mod session;
pub mod report;
