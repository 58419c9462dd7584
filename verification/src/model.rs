//! The typed shapes of API responses and the records the cache stores.

pub mod channels;
pub mod conversations;
pub mod domain;
pub mod message;
pub mod replies;
pub mod search;
pub mod users;

use vstd::prelude::*;

verus! {

/// A user row as the cache stores it.
pub struct User {
    pub id: String,
    pub name: String,
}

/// A channel row as the cache stores it.
pub struct Channel {
    pub id: String,
    pub name: String,
    pub is_channel: bool,
}

} // verus!
