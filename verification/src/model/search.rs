//! The shape of a `search.messages` response.

use vstd::prelude::*;

verus! {

/// The result of a message search.
#[derive(Debug)]
pub struct Root {
    pub messages: Messages,
    pub ok: bool,
    pub query: String,
}

/// The matches of a search together with its paging data.
#[derive(Debug)]
pub struct Messages {
    pub matches: Vec<Match>,
    pub pagination: Pagination,
    pub paging: Paging,
    pub total: i64,
}

/// One matched message.
#[derive(Debug)]
pub struct Match {
    pub channel: Channel,
    pub iid: String,
    pub permalink: String,
    pub team: String,
    pub text: String,
    pub ts: String,
    pub type_field: String,
    pub user: String,
    pub username: String,
}

/// The channel a match was found in.
#[derive(Debug)]
pub struct Channel {
    pub id: String,
    pub is_ext_shared: bool,
    pub is_mpim: bool,
    pub is_org_shared: bool,
    pub is_pending_ext_shared: bool,
    pub is_private: bool,
    pub is_shared: bool,
    pub name: String,
}

/// Result-set paging positions.
#[derive(Debug)]
pub struct Pagination {
    pub first: i64,
    pub last: i64,
    pub page: i64,
    pub page_count: i64,
    pub per_page: i64,
    pub total_count: i64,
}

/// Result-set page counters.
#[derive(Debug)]
pub struct Paging {
    pub count: i64,
    pub page: i64,
    pub pages: i64,
    pub total: i64,
}

} // verus!
