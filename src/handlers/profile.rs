use vstd::prelude::*;

use crate::error::{AppError, AppResult};
use crate::models::users::User;
use crate::services::auth::{argon2_accepts, AuthService};

verus! {

/// A request to change the signed-in user's account. A new password needs
/// the old one.
pub struct UpdateUserRequest {
    pub email: String,
    pub old_password: Option<String>,
    pub new_password: Option<String>,
}

/// The password that the account keeps after an update request: unchanged
/// without a new password; otherwise a hash of the new one, once the old one
/// matches the stored hash.
pub fn updated_password(user: &User, request: &UpdateUserRequest) -> (r: AppResult<String>)
    ensures
        match (request.new_password, request.old_password) {
            (None, _) => r == Ok::<String, AppError>(user.password),
            (Some(_), None) => r matches Err(e) && e is ValidationError,
            (Some(_), Some(old)) => match argon2_accepts(old@, user.password@) {
                None => r matches Err(e) && e is InternalError,
                Some(false) => r matches Err(e) && e is AuthorizationError,
                Some(true) => r matches Err(e) ==> e is InternalError,
            },
        },
{
    match (&request.new_password, &request.old_password) {
        (Some(new_password), Some(old_password)) => {
            if !AuthService::check_password(old_password.as_str(), user.password.as_str())? {
                return Err(AppError::AuthorizationError("Invalid password".to_string()));
            }
            AuthService::hash_password(new_password.as_str())
        },
        (Some(_), None) => Err(AppError::ValidationError("Old password is required".to_string())),
        (None, _) => Ok(user.password.clone()),
    }
}

} // verus!
