use vstd::prelude::*;

verus! {

/// Errors of the library, by kind. The text says what went wrong.
#[derive(Clone, Debug)]
pub enum AppError {
    InternalError(String),
    ValidationError(String),
    AuthenticationError(String),
    AuthorizationError(String),
    NotFoundError(String),
}

pub type AppResult<T> = core::result::Result<T, AppError>;

pub type Result<T> = core::result::Result<T, AppError>;

} // verus!
