//! Verified core logic of the Codex agent runtime: provider classification,
//! hook configuration and dispatch decisions, team and inbox bookkeeping.
mod text;
pub mod collab;
pub mod paths;
pub mod inbox;
pub mod teams;
pub mod tasks;
pub mod turns;
pub mod prompts;
pub mod permissions;
pub mod runtime;
pub mod apply_patch;
pub mod exec_wrapper;
pub mod marketplace;
pub mod worktree;
pub mod json;
pub mod provider;
pub mod decimal;
pub mod hooks;
