//! Login details.

use vstd::prelude::*;

verus! {

/// The username and password of an account.
#[derive(Debug, Hash)]
pub struct LoginDetails {
    username: String,
    password: String,
}

/// The texts of some login details.
pub struct LoginDetailsView {
    pub username: Seq<char>,
    pub password: Seq<char>,
}

impl View for LoginDetails {
    type V = LoginDetailsView;

    closed spec fn view(&self) -> LoginDetailsView {
        LoginDetailsView { username: self.username@, password: self.password@ }
    }
}

impl Clone for LoginDetails {
    fn clone(&self) -> (res: LoginDetails)
        ensures
            res == *self,
            res@ == self@,
    {
        LoginDetails { username: self.username.clone(), password: self.password.clone() }
    }
}

impl LoginDetails {
    /// Puts a username and a password together.
    pub fn new(username: String, password: String) -> (res: LoginDetails)
        ensures
            res@ == (LoginDetailsView { username: username@, password: password@ }),
    {
        LoginDetails { username, password }
    }

    /// The username.
    pub fn username(&self) -> (res: &str)
        ensures
            res@ == self@.username,
    {
        self.username.as_str()
    }

    /// The password.
    pub fn password(&self) -> (res: &str)
        ensures
            res@ == self@.password,
    {
        self.password.as_str()
    }
}

} // verus!
