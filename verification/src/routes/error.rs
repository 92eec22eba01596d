//! The request-layer error taxonomy and its mapping from service errors.

use vstd::prelude::*;

use crate::domain::error::DomainError;
use crate::domain::error::DomainErrorView;
use crate::services::error::ServiceError;
use crate::services::error::ServiceErrorView;

verus! {

/// What a failed request reports: an unexpected internal fault, a
/// user-correctable request, or a reference to state that does not exist.
#[derive(Debug, PartialEq)]
pub enum ApiError {
    Unexpected(String),
    BadRequest(String),
    NotFound(String),
}

/// The mathematical value of an [`ApiError`].
pub ghost enum ApiErrorView {
    Unexpected(Seq<char>),
    BadRequest(Seq<char>),
    NotFound(Seq<char>),
}

impl View for ApiError {
    type V = ApiErrorView;

    open spec fn view(&self) -> ApiErrorView {
        match self {
            ApiError::Unexpected(m) => ApiErrorView::Unexpected(m@),
            ApiError::BadRequest(m) => ApiErrorView::BadRequest(m@),
            ApiError::NotFound(m) => ApiErrorView::NotFound(m@),
        }
    }
}

impl ApiError {
    /// The HTTP status code each error kind maps to.
    pub fn status_code(&self) -> (r: u16)
        ensures
            self is Unexpected ==> r == 500,
            self is BadRequest ==> r == 400,
            self is NotFound ==> r == 404,
    {
        match self {
            ApiError::Unexpected(_) => 500,
            ApiError::BadRequest(_) => 400,
            ApiError::NotFound(_) => 404,
        }
    }
}

impl From<ServiceError> for ApiError {
    /// A validation failure or a mismatched request is the caller's to
    /// correct; a conversion failure is an internal fault.
    fn from(value: ServiceError) -> (r: Self) {
        match value {
            ServiceError::DomainError(error) => match error {
                DomainError::ValidationError(message) => ApiError::BadRequest(message),
                DomainError::ConversionError(message) => ApiError::Unexpected(message),
            },
            ServiceError::InvalidData(message) => ApiError::BadRequest(message),
        }
    }
}

impl vstd::std_specs::convert::FromSpecImpl<ServiceError> for ApiError {
    open spec fn obeys_from_spec() -> bool {
        true
    }

    open spec fn from_spec(value: ServiceError) -> Self {
        match value {
            ServiceError::DomainError(error) => match error {
                DomainError::ValidationError(message) => ApiError::BadRequest(message),
                DomainError::ConversionError(message) => ApiError::Unexpected(message),
            },
            ServiceError::InvalidData(message) => ApiError::BadRequest(message),
        }
    }
}

} // verus!
