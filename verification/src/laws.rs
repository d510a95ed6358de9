//! What the operations are for, stated of their inputs and results.
//!
//! A law takes the values of one or more calls, `call_ensures` being what a call promises of
//! them, and says how they must be related.

pub mod fields;
pub mod media;
pub mod owners;
pub mod routers;
pub mod runs;
pub mod subagents;
