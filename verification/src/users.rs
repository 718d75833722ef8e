//! The user-facing account forms: registration and login-request payloads,
//! with their identifying fields normalized to lowercase at construction.

use vstd::prelude::*;

use crate::text::{lower_of, lowercase};

verus! {

/// A registration form: the account's identity plus the password pair. The
/// identifying fields are lowercased here; password fields are kept exactly
/// as typed, since they are compared and hashed verbatim.
#[derive(Debug)]
pub struct UserRegisterForm {
    username: String,
    email: String,
    password: String,
    confirm_password: String,
}

impl UserRegisterForm {
    /// The requested username, lowercased.
    pub closed spec fn spec_username(self) -> Seq<char> {
        self.username@
    }

    /// The account email, lowercased.
    pub closed spec fn spec_email(self) -> Seq<char> {
        self.email@
    }

    /// The password, exactly as typed.
    pub closed spec fn spec_password(self) -> Seq<char> {
        self.password@
    }

    /// The confirmation password, exactly as typed.
    pub closed spec fn spec_confirm_password(self) -> Seq<char> {
        self.confirm_password@
    }

    /// Builds the form, lowercasing username and email and keeping both
    /// password fields untouched.
    pub fn new(username: String, email: String, password: String, confirm_password: String) -> (r:
        UserRegisterForm)
        ensures
            r.spec_username() == lower_of(username@),
            r.spec_email() == lower_of(email@),
            r.spec_password() == password@,
            r.spec_confirm_password() == confirm_password@,
    {
        UserRegisterForm {
            username: lowercase(username.as_str()),
            email: lowercase(email.as_str()),
            password,
            confirm_password,
        }
    }

    pub fn username(&self) -> (r: &str)
        ensures
            r@ == self.spec_username(),
    {
        self.username.as_str()
    }

    pub fn email(&self) -> (r: &str)
        ensures
            r@ == self.spec_email(),
    {
        self.email.as_str()
    }

    pub fn password(&self) -> (r: &str)
        ensures
            r@ == self.spec_password(),
    {
        self.password.as_str()
    }

    pub fn confirm_password(&self) -> (r: &str)
        ensures
            r@ == self.spec_confirm_password(),
    {
        self.confirm_password.as_str()
    }
}

/// The first step of logging in: asking for the named user's password
/// salt, with the username lowercased the same way registration does it.
#[derive(Debug)]
pub struct UserLoginRequestForm {
    pub username: String,
}

impl UserLoginRequestForm {
    /// Builds the request, lowercasing the username.
    pub fn new(username: String) -> (r: UserLoginRequestForm)
        ensures
            r.username@ == lower_of(username@),
    {
        UserLoginRequestForm { username: lowercase(username.as_str()) }
    }
}

} // verus!
