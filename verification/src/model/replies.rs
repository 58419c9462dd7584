//! The shape of a `conversations.replies` response.

use crate::model::message::Message;
use vstd::prelude::*;

verus! {

/// The full reply list of one thread.
#[derive(Debug)]
pub struct Root {
    pub ok: bool,
    pub messages: Vec<Message>,
    pub has_more: bool,
}

} // verus!
