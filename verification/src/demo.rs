//! The live demo: its fleet layout, its web console, and the epochs of chaos it runs.

pub mod access;
pub mod console;
pub mod disruption;
pub mod documents;
pub mod enrollment;
pub mod entry;
pub mod epochs;
pub mod exercise;
pub mod fleet;
pub mod forms;
pub mod generation;
pub mod generation_laws;
pub mod golden;
pub mod groups;
pub mod haproxy;
pub mod layout;
pub mod page;
pub mod readiness;
pub mod releases;
pub mod resources;
pub mod run;
pub mod server;
pub mod state;
pub mod workloads;
