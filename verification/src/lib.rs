//! A verified core for a risk-register: a fixed status-transition workflow,
//! derived scoring, an append-only status audit trail, and a critical-risk
//! ranking, over an in-memory record store. Persistence and transport are
//! collaborators outside this crate; they exchange plain values with it.

mod external;
pub mod evaluation;
pub mod incident;
pub mod model;
pub mod ranking;
pub mod scoring;
pub mod status;
pub mod store;
pub mod workflow;
