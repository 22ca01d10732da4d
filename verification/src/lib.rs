//! Helm's destination model, query language, recent-workspace history and
//! Workspace → Tab → Pane topology, with their contracts.

pub mod text;
pub mod model;
pub mod keyset;
pub mod keyed;
pub mod recent;
pub mod topology;
pub mod pins;
pub mod query;
pub mod config;
pub mod app;
pub mod ranking;
pub mod navigation;
pub mod json;
pub mod order;
pub mod open_workspaces;
pub mod snapshot;
pub mod render;
pub mod topology_entries;
pub mod agents;
pub mod herdr;
pub mod remotes;
pub mod launch;
pub mod refresh;
pub mod actions;
pub mod input;
pub mod mouse;
pub mod rows;
pub mod git;
pub mod hits;
pub mod directories;
pub mod repos;
pub mod bindings;
pub mod json_text;
