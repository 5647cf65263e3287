use vstd::prelude::*;

pub mod cache;
pub mod cli;
pub mod config;
pub mod diff;
pub mod git;
pub mod github;
pub mod hunk;
pub mod json;
pub mod languages;
pub mod lsp_confirmation;
pub mod mcp;
pub mod paths;
pub mod pipeline;
pub mod render;
pub mod semantic;
pub mod skeletal;
pub mod text;
pub mod treesitter;
pub mod worktree;
