//! The flat API error: a status code with a human-readable detail.

use vstd::prelude::*;
use vstd::string::StringExecFns;

verus! {

/// An error as the API reports it: an HTTP status code and a detail line.
#[derive(Debug, PartialEq)]
pub struct ApiError {
    pub status_code: u16,
    pub detail: String,
}

impl ApiError {
    /// An internal server error wrapping the given detail.
    pub fn new_internal(detail: String) -> (r: Self)
        ensures
            r.status_code == 500,
            r.detail@ == "Internal server error: "@ + detail@,
    {
        let mut message = "Internal server error: ".to_owned();
        message.append(detail.as_str());
        ApiError { status_code: 500, detail: message }
    }
}

} // verus!
