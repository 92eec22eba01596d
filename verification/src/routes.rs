//! The request-layer types the core defines: query parameters and the
//! error taxonomy mapped to status codes. The handlers themselves are I/O
//! and live with the caller.

pub mod boms;
pub mod error;

pub use boms::VersionQuery;
pub use boms::VersionRange;
pub use error::ApiError;
