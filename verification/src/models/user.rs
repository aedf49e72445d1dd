//! User accounts.

use vstd::prelude::*;

verus! {

/// A user account.
#[derive(Debug)]
pub struct User {
    pub uuid: u128,
    pub email: String,
    pub name: String,
    /// Empty for accounts that an identity provider vouches for
    pub password_hash: String,
    pub role: String,
    /// Microseconds since the epoch
    pub created_at: i64,
    /// Microseconds since the epoch
    pub updated_at: i64,
}

/// A user account as a value.
pub struct UserView {
    pub uuid: u128,
    pub email: Seq<char>,
    pub name: Seq<char>,
    pub password_hash: Seq<char>,
    pub role: Seq<char>,
    pub created_at: i64,
    pub updated_at: i64,
}

impl View for User {
    type V = UserView;

    open spec fn view(&self) -> UserView {
        UserView {
            uuid: self.uuid,
            email: self.email@,
            name: self.name@,
            password_hash: self.password_hash@,
            role: self.role@,
            created_at: self.created_at,
            updated_at: self.updated_at,
        }
    }
}

} // verus!
