//! User-configured hooks: their configuration, which of them run for an event, and how a
//! hook's output becomes a result.
pub mod config;
pub mod executor;
pub mod notify;
pub mod output;
pub mod registry;
pub mod toml_config;
pub mod types;
