//! Versioned bill-of-materials (BOM) records.
//!
//! A BOM is a named collection of components with quantities. Its history is
//! kept as an append-only log of change-event batches, one log entry per
//! committed version, so that any past state can be reconstructed by replay,
//! any two versions can be compared field by field, and any past version can
//! be restored as a new, forward-only version.

#![verifier::loop_isolation(false)]

pub mod configuration;
pub mod domain;
pub mod errors;
mod fresh;
pub mod routes;
pub mod services;
