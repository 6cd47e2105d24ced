use vstd::prelude::*;

verus! {

#[derive(Clone, Debug)]
pub struct NewUser {
    pub email: String,
    pub password: String,
}

#[derive(Clone, Debug)]
pub struct User {
    pub id: u128,
    pub email: String,
    pub password: String,
}

impl User {
    pub fn duplicate(&self) -> (r: User)
        ensures
            r == *self,
    {
        User { id: self.id, email: self.email.clone(), password: self.password.clone() }
    }
}

#[derive(Clone, Debug)]
pub struct UserFilter {
    pub email: Option<String>,
}

#[derive(Clone, Debug)]
pub struct UserUpdate {
    pub email: String,
    pub password: String,
}

} // verus!
