//! A single message as the history and reply endpoints return it.

use vstd::prelude::*;

verus! {

/// A message. `ts` is the unique, float-parseable timestamp within its
/// channel; a missing `thread_ts` marks a thread root.
#[derive(Debug)]
pub struct Message {
    pub user: String,
    pub type_field: String,
    pub ts: String,
    pub client_msg_id: String,
    pub text: String,
    pub team: Option<String>,
    pub thread_ts: Option<String>,
}

impl Clone for Message {
    fn clone(&self) -> (r: Self)
        ensures
            r == *self,
    {
        Message {
            user: self.user.clone(),
            type_field: self.type_field.clone(),
            ts: self.ts.clone(),
            client_msg_id: self.client_msg_id.clone(),
            text: self.text.clone(),
            team: match &self.team {
                Option::Some(t) => Option::Some(t.clone()),
                Option::None => Option::None,
            },
            thread_ts: match &self.thread_ts {
                Option::Some(t) => Option::Some(t.clone()),
                Option::None => Option::None,
            },
        }
    }
}

} // verus!
