use vstd::prelude::*;

use crate::error::{AppError, AppResult};
use crate::models::users::User;

verus! {

/// A signed-in user, for pages; others are sent to the sign-in page.
pub struct WebAuth(pub User);

/// A signed-in user, for the API; others get an authentication error.
pub struct ApiAuth(pub User);

/// The signed-in user, if any.
pub struct AuthUser(pub Option<User>);

impl ApiAuth {
    /// The user of an API request, from the session's user id and the lookup
    /// of that user: without a user id, an authentication error; where the
    /// lookup fails, an internal error.
    pub fn from_lookup(lookup: Option<AppResult<User>>) -> (r: AppResult<ApiAuth>)
        ensures
            match lookup {
                None => r matches Err(e) && e is AuthenticationError,
                Some(Ok(u)) => r matches Ok(ApiAuth(v)) && v == u,
                Some(Err(_)) => r matches Err(e) && e is InternalError,
            },
    {
        match lookup {
            None => Err(AppError::AuthenticationError("Not logged in".to_string())),
            Some(Ok(u)) => Ok(ApiAuth(u)),
            Some(Err(_)) => Err(AppError::InternalError("Could not find the user".to_string())),
        }
    }
}

impl AuthUser {
    /// The user of a request, from the session's user id and the lookup of
    /// that user: a user that no longer exists counts as no user, any other
    /// failed lookup is an internal error.
    pub fn from_lookup(lookup: Option<AppResult<User>>) -> (r: AppResult<AuthUser>)
        ensures
            match lookup {
                None => r matches Ok(AuthUser(None)),
                Some(Ok(u)) => r matches Ok(AuthUser(Some(v))) && v == u,
                Some(Err(e)) => if e is NotFoundError {
                    r matches Ok(AuthUser(None))
                } else {
                    r matches Err(f) && f is InternalError
                },
            },
    {
        match lookup {
            None => Ok(AuthUser(None)),
            Some(Ok(u)) => Ok(AuthUser(Some(u))),
            Some(Err(AppError::NotFoundError(_))) => Ok(AuthUser(None)),
            Some(Err(_)) => Err(AppError::InternalError("Could not find the user".to_string())),
        }
    }
}

} // verus!
