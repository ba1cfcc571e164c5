//! The user account record stored by the surrounding application. Only the
//! plain data lives here; password hashing, cookies and storage are the
//! caller's business.

use vstd::prelude::*;

verus! {

/// An account: a username, the hash of its password, and whether it is an
/// administrator.
pub struct User {
    pub username: String,
    pub password: String,
    pub admin: bool,
}

impl User {
    /// A fresh, non-administrator account.
    pub fn new(username: &str, password: &str) -> (u: User)
        ensures
            u.username@ == username@,
            u.password@ == password@,
            !u.admin,
    {
        User { username: username.to_owned(), password: password.to_owned(), admin: false }
    }

    /// The username.
    pub fn username(&self) -> (r: &str)
        ensures
            r@ == self.username@,
    {
        self.username.as_str()
    }

    /// The stored password hash.
    pub fn password_hash(&self) -> (r: &str)
        ensures
            r@ == self.password@,
    {
        self.password.as_str()
    }

    /// Whether the account is an administrator.
    pub fn admin(&self) -> (r: bool)
        ensures
            r == self.admin,
    {
        self.admin
    }
}

} // verus!
