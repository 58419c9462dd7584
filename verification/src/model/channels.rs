//! The shape of a `conversations.list` response.

use vstd::prelude::*;

verus! {

/// The full channel listing of a workspace.
#[derive(Debug)]
pub struct Root {
    pub ok: bool,
    pub channels: Vec<Channel>,
    pub response_metadata: ResponseMetadata,
}

/// One channel as the listing endpoint describes it.
#[derive(Debug)]
pub struct Channel {
    pub id: String,
    pub name: String,
    pub is_channel: bool,
    pub is_group: bool,
    pub is_im: bool,
    pub created: i64,
    pub creator: String,
    pub is_archived: bool,
    pub is_general: bool,
    pub unlinked: i64,
    pub name_normalized: String,
    pub is_shared: bool,
    pub is_ext_shared: bool,
    pub is_org_shared: bool,
    pub is_pending_ext_shared: bool,
    pub is_member: bool,
    pub is_private: bool,
    pub is_mpim: bool,
    pub updated: i64,
    pub topic: Topic,
    pub purpose: Purpose,
    pub num_members: i64,
}

/// A channel topic.
#[derive(Debug)]
pub struct Topic {
    pub value: String,
    pub creator: String,
    pub last_set: i64,
}

/// A channel purpose.
#[derive(Debug)]
pub struct Purpose {
    pub value: String,
    pub creator: String,
    pub last_set: i64,
}

/// The continuation token attached to a listing; empty means none.
#[derive(Debug)]
pub struct ResponseMetadata {
    pub next_cursor: String,
}

} // verus!
