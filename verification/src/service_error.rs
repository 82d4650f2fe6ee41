//! The errors that managers return.
use vstd::prelude::*;

verus! {

/// Why an operation failed, with a message for the caller.
#[derive(Debug, Clone)]
pub enum ServiceError {
    /// What was asked for does not exist.
    NotFound(String),
    /// The request is not valid.
    InvalidInput(String),
    /// The caller may not do this.
    Unauthorized(String),
    /// Something behind the manager failed.
    Backend(String),
}

/// What an error stands for.
pub enum ErrorView {
    NotFound(Seq<char>),
    InvalidInput(Seq<char>),
    Unauthorized(Seq<char>),
    Backend(Seq<char>),
}

impl View for ServiceError {
    type V = ErrorView;

    open spec fn view(&self) -> ErrorView {
        match *self {
            ServiceError::NotFound(m) => ErrorView::NotFound(m@),
            ServiceError::InvalidInput(m) => ErrorView::InvalidInput(m@),
            ServiceError::Unauthorized(m) => ErrorView::Unauthorized(m@),
            ServiceError::Backend(m) => ErrorView::Backend(m@),
        }
    }
}

} // verus!
