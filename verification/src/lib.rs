//! Routing of model calls: media payloads, response-state ownership, candidate fallback,
//! and delegated sub-agent routing.

pub mod affinity;
pub mod client_router;
pub mod json;
pub mod laws;
pub mod media;
pub mod protocol;
pub mod run;
pub mod state_owners;
pub mod status;
pub mod subagent;
pub mod text;
