//! The domain records the resolver and the sync engine work with.

use vstd::prelude::*;

verus! {

/// A workspace member, unique by id within a team.
#[derive(Debug)]
pub struct User {
    pub id: String,
    pub name: String,
}

impl Clone for User {
    fn clone(&self) -> (r: Self)
        ensures
            r == *self,
    {
        User { id: self.id.clone(), name: self.name.clone() }
    }
}

/// A conversation, unique by id within a team.
#[derive(Debug)]
pub struct Channel {
    pub id: String,
    pub name: String,
    pub is_channel: bool,
}

impl Clone for Channel {
    fn clone(&self) -> (r: Self)
        ensures
            r == *self,
    {
        Channel { id: self.id.clone(), name: self.name.clone(), is_channel: self.is_channel }
    }
}

} // verus!
