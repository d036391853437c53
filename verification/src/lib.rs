//! Verified planning and script generation for a launcher that opens many
//! terminal panes and prepares Codex sessions in them.

pub mod text;
pub mod quote;
pub mod config;
pub mod codex;
pub mod plan;
pub mod script;
pub mod launch;
pub mod host;
