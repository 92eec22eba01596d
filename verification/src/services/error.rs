//! Errors surfaced by the boundary operations.

use vstd::prelude::*;

use crate::domain::error::DomainError;
use crate::domain::error::DomainErrorView;

verus! {

/// Either a domain failure carried through, or state the request does not
/// match (a version that exceeds history, an empty range).
#[derive(Debug, PartialEq)]
pub enum ServiceError {
    DomainError(DomainError),
    InvalidData(String),
}

/// The mathematical value of a [`ServiceError`].
pub ghost enum ServiceErrorView {
    DomainError(DomainErrorView),
    InvalidData(Seq<char>),
}

impl View for ServiceError {
    type V = ServiceErrorView;

    open spec fn view(&self) -> ServiceErrorView {
        match self {
            ServiceError::DomainError(e) => ServiceErrorView::DomainError(e@),
            ServiceError::InvalidData(m) => ServiceErrorView::InvalidData(m@),
        }
    }
}

impl From<DomainError> for ServiceError {
    fn from(error: DomainError) -> (r: Self) {
        ServiceError::DomainError(error)
    }
}

impl vstd::std_specs::convert::FromSpecImpl<DomainError> for ServiceError {
    open spec fn obeys_from_spec() -> bool {
        true
    }

    open spec fn from_spec(error: DomainError) -> Self {
        ServiceError::DomainError(error)
    }
}

} // verus!
