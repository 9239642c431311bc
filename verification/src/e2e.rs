//! The end-to-end drive: a kind cluster brought up, rolled through broken and valid releases
//! under chaos, and held to what its status and traffic must show.

pub mod alerts;
pub mod alertsink;
pub mod chaos;
pub mod chaos_laws;
pub mod controls;
pub mod deployment;
pub mod disruption;
pub mod enrollment;
pub mod entry;
pub mod fixture;
pub mod fleet;
pub mod groups;
pub mod haproxy;
pub mod layout;
pub mod metrics;
pub mod probe;
pub mod releases;
pub mod resources;
pub mod scenarios;
pub mod specs;
pub mod workloads;
