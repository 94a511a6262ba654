//! Verified core of a self-iterating coding agent host.
pub mod recovery;
pub mod text;
pub mod pattern;
pub mod compile;
pub mod git;
pub mod persistence;
pub mod self_update;
pub mod tui;
pub mod llm;
pub mod bash;
pub mod search;
pub mod fs;
pub mod config;
pub mod host;
