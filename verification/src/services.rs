//! The boundary operations the core exposes to its caller: creation,
//! replay to a version, incremental update, revert and diff, each as a pure
//! function over loaded state, plus the conversions that assemble a BOM
//! from persisted parts.

pub mod bom_service;
pub mod converters;
pub mod error;
