//! The shape of a `conversations.history` response page.

use crate::model::message::Message;
use vstd::prelude::*;

verus! {

/// One page of channel history.
#[derive(Debug)]
pub struct Root {
    pub ok: bool,
    pub messages: Vec<Message>,
    pub has_more: bool,
    pub pin_count: i64,
    pub channel_actions_count: i64,
    pub response_metadata: ResponseMetadata,
}

/// The continuation token attached to a page; empty means none.
#[derive(Debug)]
pub struct ResponseMetadata {
    pub next_cursor: String,
}

impl Clone for ResponseMetadata {
    fn clone(&self) -> (r: Self)
        ensures
            r == *self,
    {
        ResponseMetadata { next_cursor: self.next_cursor.clone() }
    }
}

} // verus!
