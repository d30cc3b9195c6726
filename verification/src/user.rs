//! The identity record consumed read-only from the credential store.
use vstd::prelude::*;

verus! {

/// A user record: numeric id, unique username, and a one-way password
/// digest.  An empty digest is a sentinel meaning that the account requires
/// no password check.
#[derive(Debug, PartialEq, Eq)]
pub struct User {
    pub id: i32,
    pub username: String,
    pub password: String,
}

/// The mathematical value of a `User`: the id as an integer and the two
/// strings as character sequences.
pub struct UserV {
    pub id: int,
    pub username: Seq<char>,
    pub password: Seq<char>,
}

impl View for User {
    type V = UserV;

    open spec fn view(&self) -> UserV {
        UserV { id: self.id as int, username: self.username@, password: self.password@ }
    }
}

impl Clone for User {
    fn clone(&self) -> (r: Self)
        ensures
            r == *self,
    {
        User { id: self.id, username: self.username.clone(), password: self.password.clone() }
    }
}

} // verus!
