use vstd::prelude::*;

verus! {

/// The envelope of every request and response about users.
#[derive(Debug)]
pub struct UserBody<T> {
    pub user: T,
}

/// The user on whose behalf a request is made.
#[derive(Clone, Copy, PartialEq, Eq, Debug, Structural)]
pub struct AuthUser {
    pub user_id: u128,
}

} // verus!
