//! The shape of a `users.list` response.

use vstd::prelude::*;

verus! {

/// The full member listing of a workspace.
#[derive(Debug)]
pub struct Root {
    pub ok: bool,
    pub members: Vec<Member>,
    pub cache_ts: i64,
    pub response_metadata: ResponseMetadata,
}

/// One member as the listing endpoint describes it.
#[derive(Debug)]
pub struct Member {
    pub id: String,
    pub team_id: String,
    pub name: String,
    pub deleted: bool,
    pub color: String,
    pub real_name: String,
    pub tz: String,
    pub tz_label: String,
    pub tz_offset: i64,
    pub profile: Profile,
    pub is_admin: bool,
    pub is_owner: bool,
    pub is_primary_owner: bool,
    pub is_restricted: bool,
    pub is_ultra_restricted: bool,
    pub is_bot: bool,
    pub updated: i64,
    pub is_app_user: Option<bool>,
    pub has_2fa: bool,
}

/// A member's profile.
#[derive(Debug)]
pub struct Profile {
    pub avatar_hash: String,
    pub status_text: Option<String>,
    pub status_emoji: Option<String>,
    pub real_name: String,
    pub display_name: String,
    pub real_name_normalized: String,
    pub display_name_normalized: String,
    pub email: String,
    pub team: Option<String>,
    pub first_name: Option<String>,
    pub last_name: Option<String>,
    pub title: Option<String>,
    pub phone: Option<String>,
    pub skype: Option<String>,
}

/// The continuation token attached to a listing; empty means none.
#[derive(Debug)]
pub struct ResponseMetadata {
    pub next_cursor: String,
}

} // verus!
