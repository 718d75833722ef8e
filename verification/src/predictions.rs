//! Predictions: named, per-user collections of deltas. Only the identity
//! fields live here; the deltas themselves are joined in by the storage
//! layer.

use vstd::prelude::*;

use crate::text::{lower_of, lowercase};

verus! {

/// A stored prediction: its record id, owner, and name.
#[derive(Debug, Clone)]
pub struct Prediction {
    id: i32,
    username: String,
    name: String,
}

impl Prediction {
    /// The record id.
    pub closed spec fn spec_id(self) -> int {
        self.id as int
    }

    /// The owning user's name.
    pub closed spec fn spec_username(self) -> Seq<char> {
        self.username@
    }

    /// The prediction's name.
    pub closed spec fn spec_name(self) -> Seq<char> {
        self.name@
    }

    /// Builds a prediction record from its stored fields.
    pub fn new(id: i32, username: String, name: String) -> (r: Prediction)
        ensures
            r.spec_id() == id,
            r.spec_username() == username@,
            r.spec_name() == name@,
    {
        Prediction { id, username, name }
    }

    pub fn id(&self) -> (r: i32)
        ensures
            r == self.spec_id(),
    {
        self.id
    }

    pub fn username(&self) -> (r: &str)
        ensures
            r@ == self.spec_username(),
    {
        self.username.as_str()
    }

    pub fn name(&self) -> (r: &str)
        ensures
            r@ == self.spec_name(),
    {
        self.name.as_str()
    }
}

/// A prediction about to be created: owner and name, both normalized to
/// lowercase so they can be compared and deduplicated case-insensitively.
#[derive(Debug, Clone)]
pub struct NewPrediction {
    username: String,
    name: String,
}

impl NewPrediction {
    /// The owning user's name, lowercased.
    pub closed spec fn spec_username(self) -> Seq<char> {
        self.username@
    }

    /// The prediction's name, lowercased.
    pub closed spec fn spec_name(self) -> Seq<char> {
        self.name@
    }

    /// Normalizes owner and name to lowercase and builds the record.
    pub fn new(username: String, name: String) -> (r: NewPrediction)
        ensures
            r.spec_username() == lower_of(username@),
            r.spec_name() == lower_of(name@),
    {
        NewPrediction {
            username: lowercase(username.as_str()),
            name: lowercase(name.as_str()),
        }
    }

    pub fn username(&self) -> (r: &str)
        ensures
            r@ == self.spec_username(),
    {
        self.username.as_str()
    }

    pub fn name(&self) -> (r: &str)
        ensures
            r@ == self.spec_name(),
    {
        self.name.as_str()
    }
}

} // verus!
