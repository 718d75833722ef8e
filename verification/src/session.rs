//! Client-side session identity: who is currently logged in.
//!
//! The state machine lives here, fully verified; the surrounding shell owns
//! the session-storage copy of the identity. It hands the stored value in
//! as the `recalled` argument and writes back what [`ContextData::login`]
//! returns, so every decision about the identity is made in verified code.

use vstd::prelude::*;

use crate::text::{ascii_lower_seq, ascii_lowercase};

verus! {

/// The logged-in user's identity, if any.
#[derive(Debug, Clone, PartialEq)]
pub struct ContextData {
    username: Option<String>,
}

impl ContextData {
    /// The current identity's characters, if one is set.
    pub closed spec fn spec_username(self) -> Option<Seq<char>> {
        match self.username {
            Option::Some(u) => Some(u@),
            Option::None => None,
        }
    }

    /// A fresh context: nobody is logged in.
    pub fn new() -> (r: ContextData)
        ensures
            r.spec_username() is None,
    {
        ContextData { username: None }
    }

    /// Whether someone is logged in, falling back to the identity recalled
    /// from session storage when none is held yet.
    pub fn is_logged_in(&mut self, recalled: Option<String>) -> (r: bool)
        ensures
            final(self).spec_username() == if old(self).spec_username() is Some {
                old(self).spec_username()
            } else {
                match recalled {
                    Option::Some(u) => Some(u@),
                    Option::None => None::<Seq<char>>,
                }
            },
            r == (final(self).spec_username() is Some),
    {
        if self.username.is_some() {
            true
        } else {
            self.username = recalled;
            self.username.is_some()
        }
    }

    /// The logged-in username, if any, falling back to the recalled
    /// identity exactly as [`ContextData::is_logged_in`] does.
    pub fn username(&mut self, recalled: Option<String>) -> (r: Option<String>)
        ensures
            final(self).spec_username() == if old(self).spec_username() is Some {
                old(self).spec_username()
            } else {
                match recalled {
                    Option::Some(u) => Some(u@),
                    Option::None => None::<Seq<char>>,
                }
            },
            match r {
                Option::Some(u) => final(self).spec_username() == Some(u@),
                Option::None => final(self).spec_username() is None,
            },
    {
        if !self.is_logged_in(recalled) {
            None
        } else {
            match &self.username {
                Option::Some(u) => Some(u.clone()),
                Option::None => None,
            }
        }
    }

    /// Logs `username` in, lowercased; returns the normalized identity for
    /// the caller to remember in session storage.
    pub fn login(&mut self, username: String) -> (remember: String)
        ensures
            remember@ == ascii_lower_seq(username@),
            final(self).spec_username() == Some(remember@),
    {
        let lowered = ascii_lowercase(username.as_str());
        let copy = lowered.clone();
        self.username = Some(lowered);
        copy
    }

    /// Logs out; the caller forgets the session-storage copy.
    pub fn logout(&mut self)
        ensures
            final(self).spec_username() is None,
    {
        self.username = None;
    }
}

} // verus!
