use vstd::prelude::*;

use crate::error::{AppError, AppResult};
use crate::ids::new_id;
use crate::lookup::{any, first, is_first, lemma_first_is, lemma_none};
use crate::models::users::{NewUser, User, UserFilter, UserUpdate};

verus! {

/// The text with which every argon2 hash starts.
pub open spec fn hash_prefix() -> Seq<char> {
    "$argon2"@
}

pub open spec fn user_id_is(id: u128) -> spec_fn(User) -> bool {
    |u: User| u.id == id
}

pub open spec fn user_email_is(email: Seq<char>) -> spec_fn(User) -> bool {
    |u: User| u.email@ == email
}

/// The users of `us` that the filter selects, in order.
pub open spec fn users_listed(us: Seq<User>, f: UserFilter) -> Seq<User>
    decreases us.len(),
{
    if us.len() == 0 {
        Seq::empty()
    } else {
        let rest = users_listed(us.drop_last(), f);
        if f.email matches Some(e) && us.last().email@ != e@ {
            rest
        } else {
            rest.push(us.last())
        }
    }
}

/// Whether the password is stored as an argon2 hash.
fn is_hashed(password: &str) -> (r: bool)
    ensures
        r == hash_prefix().is_prefix_of(password@),
{
    let prefix = "$argon2";
    proof {
        reveal_strlit("$argon2");
    }
    let n = password.unicode_len();
    if n < 7 {
        return false;
    }
    let mut i: usize = 0;
    while i < 7
        invariant
            i <= 7,
            n == password@.len(),
            n >= 7,
            prefix@ == hash_prefix(),
            prefix@.len() == 7,
            forall|j: int| 0 <= j < i ==> prefix@[j] == password@[j],
        decreases 7 - i,
    {
        if password.get_char(i) != prefix.get_char(i) {
            return false;
        }
        i += 1;
    }
    true
}

/// The user accounts, in order of creation.
pub struct UserRepo {
    users: Vec<User>,
}

impl View for UserRepo {
    type V = Seq<User>;

    closed spec fn view(&self) -> Seq<User> {
        self.users@
    }
}

impl UserRepo {
    pub fn new() -> (r: UserRepo)
        ensures
            r@ == Seq::<User>::empty(),
    {
        UserRepo { users: Vec::new() }
    }

    fn find(&self, id: u128) -> (r: Option<usize>)
        ensures
            match r {
                Some(i) => is_first(self@, user_id_is(id), i as int),
                None => !any(self@, user_id_is(id)),
            },
    {
        let mut i: usize = 0;
        while i < self.users.len()
            invariant
                i <= self.users.len(),
                forall|j: int| 0 <= j < i ==> !user_id_is(id)(#[trigger] self@[j]),
            decreases self.users.len() - i,
        {
            if self.users[i].id == id {
                return Some(i);
            }
            i += 1;
        }
        proof {
            lemma_none(self@, user_id_is(id));
        }
        None
    }

    /// Records a new account under a random id. Its password must already be
    /// an argon2 hash.
    pub fn insert(&mut self, new_user: NewUser) -> (r: AppResult<User>)
        ensures
            match r {
                Ok(u) => {
                    &&& hash_prefix().is_prefix_of(new_user.password@)
                    &&& !any(old(self)@, user_id_is(u.id))
                    &&& u.email == new_user.email
                    &&& u.password == new_user.password
                    &&& final(self)@ == old(self)@.push(u)
                },
                Err(e) => {
                    &&& final(self)@ == old(self)@
                    &&& !hash_prefix().is_prefix_of(new_user.password@) ==> e is ValidationError
                    &&& hash_prefix().is_prefix_of(new_user.password@) ==> e is InternalError
                },
            },
    {
        let id = new_id();
        self.insert_with_id(id, new_user)
    }

    /// Records a new account under the given id, which no account may have
    /// yet. Its password must already be an argon2 hash.
    pub fn insert_with_id(&mut self, id: u128, new_user: NewUser) -> (r: AppResult<User>)
        ensures
            match r {
                Ok(u) => {
                    &&& hash_prefix().is_prefix_of(new_user.password@)
                    &&& !any(old(self)@, user_id_is(id))
                    &&& u == (User { id, email: new_user.email, password: new_user.password })
                    &&& final(self)@ == old(self)@.push(u)
                },
                Err(e) => {
                    &&& final(self)@ == old(self)@
                    &&& if !hash_prefix().is_prefix_of(new_user.password@) {
                        e is ValidationError
                    } else {
                        e is InternalError && any(old(self)@, user_id_is(id))
                    }
                },
            },
    {
        if !is_hashed(new_user.password.as_str()) {
            return Err(AppError::ValidationError("Password is not hashed".to_string()));
        }
        match self.find(id) {
            Some(i) => {
                proof {
                    lemma_first_is(self@, user_id_is(id), i as int);
                }
                Err(AppError::InternalError("id already in use".to_string()))
            },
            None => {
                let u = User { id, email: new_user.email, password: new_user.password };
                let r = u.duplicate();
                self.users.push(u);
                Ok(r)
            },
        }
    }

    /// The account of this id.
    pub fn get(&self, id: u128) -> (r: AppResult<User>)
        ensures
            match r {
                Ok(u) => any(self@, user_id_is(id)) && u == self@[first(self@, user_id_is(id))],
                Err(e) => !any(self@, user_id_is(id)) && e is NotFoundError,
            },
    {
        match self.find(id) {
            Some(i) => {
                proof {
                    lemma_first_is(self@, user_id_is(id), i as int);
                }
                Ok(self.users[i].duplicate())
            },
            None => Err(AppError::NotFoundError("not found".to_string())),
        }
    }

    /// The first account with this email, if any.
    pub fn get_by_email(&self, email: String) -> (r: AppResult<Option<User>>)
        ensures
            any(self@, user_email_is(email@)) ==> r == Ok::<Option<User>, AppError>(
                Some(self@[first(self@, user_email_is(email@))]),
            ),
            !any(self@, user_email_is(email@)) ==> r == Ok::<Option<User>, AppError>(None),
    {
        let mut i: usize = 0;
        while i < self.users.len()
            invariant
                i <= self.users.len(),
                forall|j: int| 0 <= j < i ==> !user_email_is(email@)(#[trigger] self@[j]),
            decreases self.users.len() - i,
        {
            if self.users[i].email == email {
                proof {
                    lemma_first_is(self@, user_email_is(email@), i as int);
                }
                return Ok(Some(self.users[i].duplicate()));
            }
            i += 1;
        }
        proof {
            lemma_none(self@, user_email_is(email@));
        }
        Ok(None)
    }

    /// The accounts that the filter selects, in order of creation.
    pub fn list(&self, filter: UserFilter) -> (r: AppResult<Vec<User>>)
        ensures
            r matches Ok(v) && v@ == users_listed(self@, filter),
    {
        let mut r: Vec<User> = Vec::new();
        let mut i: usize = 0;
        while i < self.users.len()
            invariant
                i <= self.users.len(),
                r@ == users_listed(self@.subrange(0, i as int), filter),
            decreases self.users.len() - i,
        {
            proof {
                assert(self@.subrange(0, i + 1).drop_last() =~= self@.subrange(0, i as int));
            }
            let keep = match &filter.email {
                Some(e) => self.users[i].email == *e,
                None => true,
            };
            if keep {
                r.push(self.users[i].duplicate());
            }
            i += 1;
        }
        proof {
            assert(self@.subrange(0, self@.len() as int) =~= self@);
        }
        Ok(r)
    }

    /// Replaces the email and password of the account of this id.
    pub fn update(&mut self, user_id: u128, update: UserUpdate) -> (r: AppResult<User>)
        ensures
            match r {
                Ok(u) => {
                    let i = first(old(self)@, user_id_is(user_id));
                    &&& any(old(self)@, user_id_is(user_id))
                    &&& u == (User { id: user_id, email: update.email, password: update.password })
                    &&& final(self)@ == old(self)@.update(i, u)
                },
                Err(e) => {
                    &&& !any(old(self)@, user_id_is(user_id))
                    &&& e is NotFoundError
                    &&& final(self)@ == old(self)@
                },
            },
    {
        match self.find(user_id) {
            Some(i) => {
                proof {
                    lemma_first_is(self@, user_id_is(user_id), i as int);
                }
                let u = User { id: user_id, email: update.email, password: update.password };
                let r = u.duplicate();
                self.users.remove(i);
                self.users.insert(i, u);
                proof {
                    assert(self@ =~= old(self)@.update(i as int, u));
                }
                Ok(r)
            },
            None => Err(AppError::NotFoundError("not found".to_string())),
        }
    }

    /// Removes the account of this id, if there is one.
    pub fn delete(&mut self, id: u128) -> (r: AppResult<()>)
        ensures
            r is Ok,
            any(old(self)@, user_id_is(id)) ==> final(self)@ == old(self)@.remove(
                first(old(self)@, user_id_is(id)),
            ),
            !any(old(self)@, user_id_is(id)) ==> final(self)@ == old(self)@,
    {
        match self.find(id) {
            Some(i) => {
                proof {
                    lemma_first_is(self@, user_id_is(id), i as int);
                }
                self.users.remove(i);
                Ok(())
            },
            None => Ok(()),
        }
    }
}

} // verus!
