//! Error types of the engine and their projection onto response codes.
use vstd::prelude::*;
use crate::domain::Diagnostic;

verus! {

/// The ordered field-level findings of a failed validation phase.
#[derive(Debug, Clone, PartialEq, Eq)]
pub struct ValidationFailure {
    pub diagnostics: Vec<Diagnostic>,
}

/// Why the repository refused a write.
#[derive(Debug, Clone, Copy, PartialEq, Eq, Structural)]
pub enum RepositoryFailure {
    /// A record with this idempotency key or this identifier already exists.
    Conflict,
    /// No record has this identifier.
    NotFound,
    /// The state machine does not permit the requested transition.
    InvalidTransition,
}

/// Why an engine operation could not be carried out.
#[derive(Debug, Clone, Copy, PartialEq, Eq, Structural)]
pub enum ServiceError {
    /// No payment has the given identifier.
    NotFound,
    /// The repository refused a write; nothing was accepted.
    Repository(RepositoryFailure),
    /// The payment's state does not permit the operation.
    InvalidState,
}

/// Errors as the transport layer reports them.
#[derive(Debug, Clone, PartialEq, Eq)]
pub enum ApiError {
    ValidationError(String),
    BusinessRuleError(String),
    InternalServerError,
    NotFound(String),
}

impl ApiError {
    /// The HTTP status code each error is answered with.
    pub open spec fn status_code_spec(&self) -> u16 {
        match self {
            ApiError::ValidationError(_) => 400,
            ApiError::BusinessRuleError(_) => 422,
            ApiError::InternalServerError => 500,
            ApiError::NotFound(_) => 404,
        }
    }

    pub fn status_code(&self) -> (r: u16)
        ensures
            r == self.status_code_spec(),
    {
        match self {
            ApiError::ValidationError(_) => 400,
            ApiError::BusinessRuleError(_) => 422,
            ApiError::InternalServerError => 500,
            ApiError::NotFound(_) => 404,
        }
    }

    /// The error a failed engine operation is reported as.
    pub fn from_service_error(e: ServiceError) -> (r: ApiError)
        ensures
            e == ServiceError::NotFound ==> r.status_code_spec() == 404,
            e is InvalidState ==> r.status_code_spec() == 422,
            e is Repository ==> r == ApiError::InternalServerError,
    {
        match e {
            ServiceError::NotFound => ApiError::NotFound(String::from_str("payment")),
            ServiceError::InvalidState => ApiError::BusinessRuleError(
                String::from_str("the payment's state does not permit this operation"),
            ),
            ServiceError::Repository(_) => ApiError::InternalServerError,
        }
    }
}

} // verus!
