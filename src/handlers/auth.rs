use vstd::prelude::*;

verus! {

/// A sign-in request.
pub struct Login {
    pub email: String,
    pub password: String,
}

} // verus!
