//! Decision logic of a fleet exercise: the layout, plans, state machines, parsers and
//! verdicts behind a release-rollout demo and its soak campaign.

pub mod clock;
pub mod commands;
pub mod demo;
pub mod document_laws;
pub mod documents;
pub mod e2e;
pub mod encoding;
pub mod endpoints;
pub mod enrollment;
pub mod haproxy;
pub mod http;
pub mod identity;
pub mod json;
pub mod labels;
pub mod lifecycle;
pub mod naming;
pub mod random;
pub mod resources;
pub mod soak;
pub mod sorting;
pub mod text;
pub mod text_laws;
pub mod version;
pub mod waiting;
pub mod workloads;
