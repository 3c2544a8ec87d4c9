//! Native, zero-container management of per-project development environments: the decisions
//! behind reading a manifest, resolving its toolchains and services, and starting, stopping and
//! inspecting what it declares.

pub mod caddy;
pub mod commands;
pub mod data;
pub mod laws;
pub mod location;
pub mod manifest;
pub mod manifest_edit;
pub mod ordered_map;
pub mod output;
pub mod pinned;
pub mod placeholder;
pub mod plain_toml;
pub mod platform;
pub mod process;
pub mod projects;
pub mod registry;
pub mod shell;
pub mod state;
pub mod style;
pub mod text;
pub mod toolchain;
pub mod trust;
pub mod words;
