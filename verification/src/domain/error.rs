//! Domain-level error taxonomy.

use vstd::prelude::*;

verus! {

/// A user-correctable input problem ([`DomainError::ValidationError`]) or an
/// internal invariant violated while assembling a result
/// ([`DomainError::ConversionError`]).
#[derive(Debug, PartialEq)]
pub enum DomainError {
    ConversionError(String),
    ValidationError(String),
}

/// The mathematical value of a [`DomainError`].
pub ghost enum DomainErrorView {
    ConversionError(Seq<char>),
    ValidationError(Seq<char>),
}

impl View for DomainError {
    type V = DomainErrorView;

    open spec fn view(&self) -> DomainErrorView {
        match self {
            DomainError::ConversionError(m) => DomainErrorView::ConversionError(m@),
            DomainError::ValidationError(m) => DomainErrorView::ValidationError(m@),
        }
    }
}

} // verus!
