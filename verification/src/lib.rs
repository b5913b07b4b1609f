//! Workspace manager library.
pub mod text;
pub mod domains;
pub mod json;
pub mod settings;
pub mod repostore;
pub mod tracker;
pub mod worktree;
pub mod devcontainer;
pub mod session;
pub mod cli;
pub mod usecases;
pub mod github;
pub mod wsm_core;
pub mod workflow;
