//! The pagination engine: an explicit state machine that assembles a
//! complete channel history from repeated `conversations.history` pages.
//!
//! Continuation is cursor-driven while the remote API returns cursors, and
//! falls back to advancing the `oldest` time bound when it stops. A page
//! with an empty cursor whose maximum timestamp equals the accumulated
//! maximum is treated as a stalled boundary and converges the engine; this
//! can end the fetch early when two genuinely distinct pages share a
//! maximum timestamp, a known limitation kept faithfully.

use vstd::prelude::*;

use crate::model::conversations::Root;
use crate::model::message::Message;
use crate::slack::pairs_view;
use crate::text::spec_decimal;
use crate::text::u32_to_string;
use crate::ts::{ts_le, ts_le_str};

verus! {

/// The timestamp of the last message attaining the maximum timestamp, or
/// the empty string for an empty list — the fold a last-maximum
/// `max_by` scan performs.
pub open spec fn spec_max_ts(ms: Seq<Message>) -> Seq<char>
    decreases ms.len(),
{
    if ms.len() == 0 {
        Seq::<char>::empty()
    } else {
        let prev = spec_max_ts(ms.drop_last());
        if ts_le(prev, ms.last().ts@) {
            ms.last().ts@
        } else {
            prev
        }
    }
}

/// The maximum timestamp of a message list, empty when the list is empty.
pub fn get_max_ts(messages: &Vec<Message>) -> (r: String)
    ensures
        r@ == spec_max_ts(messages@),
{
    let n = messages.len();
    let mut best = String::new();
    let mut i: usize = 0;
    proof {
        assert(messages@.subrange(0, 0) =~= Seq::<Message>::empty());
    }
    while i < n
        invariant
            0 <= i <= n,
            n == messages@.len(),
            best@ == spec_max_ts(messages@.subrange(0, i as int)),
        decreases n - i,
    {
        proof {
            assert(messages@.subrange(0, i + 1).drop_last() =~= messages@.subrange(0, i as int));
            assert(messages@.subrange(0, i + 1).last() == messages@[i as int]);
        }
        if ts_le_str(best.as_str(), messages[i].ts.as_str()) {
            best = messages[i].ts.clone();
        }
        i += 1;
    }
    proof {
        assert(messages@.subrange(0, n as int) =~= messages@);
    }
    best
}

/// Where the engine stands.
#[derive(Clone, Copy, Debug, PartialEq, Eq, Structural)]
pub enum EngineState {
    /// No request issued yet.
    Init,
    /// Continuing from the cursor of the last page.
    FetchingByCursor,
    /// Continuing from the advanced `oldest` time bound.
    FetchingByOldest,
    /// Stopped at a stalled boundary; terminal.
    Converged,
    /// Stopped on an empty page; terminal.
    Exhausted,
}

/// How the next history request continues.
pub enum Continuation {
    /// Pass the cursor as the continuation parameter.
    ByCursor(String),
    /// Pass the time bound as the `oldest` parameter.
    ByOldest(String),
}

/// The pagination state: the gapless accumulated history and the
/// continuation bookkeeping.
pub struct PaginationEngine {
    pub channel: String,
    pub count: u32,
    pub accumulated: Vec<Message>,
    pub cursor: String,
    pub start_time: String,
    pub first_call: bool,
    pub converged: bool,
    pub exhausted: bool,
}

impl PaginationEngine {
    /// The state the bookkeeping fields encode.
    pub open spec fn spec_state(&self) -> EngineState {
        if self.exhausted {
            EngineState::Exhausted
        } else if self.cursor@.len() == 0 && !self.first_call && self.converged {
            EngineState::Converged
        } else if self.first_call {
            EngineState::Init
        } else if self.cursor@.len() > 0 {
            EngineState::FetchingByCursor
        } else {
            EngineState::FetchingByOldest
        }
    }

    /// The engine still issues requests.
    pub open spec fn running(&self) -> bool {
        self.spec_state() != EngineState::Converged && self.spec_state() != EngineState::Exhausted
    }

    /// A fresh engine for one channel, fetching pages of `count` messages
    /// starting from `start_time`.
    pub fn new(channel: &str, start_time: &str, count: u32) -> (e: Self)
        ensures
            e.channel@ == channel@,
            e.count == count,
            e.accumulated@ =~= Seq::<Message>::empty(),
            e.cursor@ =~= Seq::<char>::empty(),
            e.start_time@ == start_time@,
            e.first_call,
            !e.converged,
            !e.exhausted,
            e.spec_state() == EngineState::Init,
    {
        PaginationEngine {
            channel: String::from_str(channel),
            count,
            accumulated: Vec::new(),
            cursor: String::new(),
            start_time: String::from_str(start_time),
            first_call: true,
            converged: false,
            exhausted: false,
        }
    }

    /// The engine's current state, for diagnostics.
    pub fn state(&self) -> (s: EngineState)
        ensures
            s == self.spec_state(),
    {
        if self.exhausted {
            EngineState::Exhausted
        } else if self.cursor.as_str().is_empty() && !self.first_call && self.converged {
            EngineState::Converged
        } else if self.first_call {
            EngineState::Init
        } else if !self.cursor.as_str().is_empty() {
            EngineState::FetchingByCursor
        } else {
            EngineState::FetchingByOldest
        }
    }

    /// The continuation of the next request, or `None` once the engine has
    /// stopped: on a stalled boundary (Converged) or an empty page
    /// (Exhausted). A pending cursor is passed on; otherwise the request
    /// bounds history from `start_time`.
    pub fn next_request(&self) -> (r: Option<Continuation>)
        ensures
            (r is None) == !self.running(),
            match r {
                Some(c) => match c {
                    Continuation::ByCursor(s) => self.cursor@.len() > 0 && s@ == self.cursor@,
                    Continuation::ByOldest(s) => self.cursor@.len() == 0 && s@ == self.start_time@,
                },
                None => true,
            },
    {
        if self.exhausted {
            return None;
        }
        if self.cursor.as_str().is_empty() && !self.first_call && self.converged {
            return None;
        }
        if !self.cursor.as_str().is_empty() {
            Some(Continuation::ByCursor(self.cursor.clone()))
        } else {
            Some(Continuation::ByOldest(self.start_time.clone()))
        }
    }

    /// Folds one returned page into the state:
    /// - an empty page stops the engine (Exhausted), appending nothing;
    /// - a page with an empty cursor and an unchanged maximum timestamp is
    ///   appended and marks the engine converged;
    /// - a page with an empty cursor and a new maximum advances `start_time`
    ///   to that maximum and continues in oldest-timestamp mode;
    /// - any other page is appended and its cursor drives the next request.
    pub fn apply_page(&mut self, page: Root)
        requires
            old(self).running(),
        ensures
            final(self).channel == old(self).channel,
            final(self).count == old(self).count,
            !final(self).first_call,
            page.messages@.len() == 0 ==> {
                &&& final(self).accumulated@ == old(self).accumulated@
                &&& final(self).converged
                &&& final(self).exhausted
                &&& final(self).cursor == old(self).cursor
                &&& final(self).start_time == old(self).start_time
                &&& final(self).spec_state() == EngineState::Exhausted
            },
            page.messages@.len() > 0 ==> {
                let nc = page.response_metadata.next_cursor@;
                let acc_max = spec_max_ts(old(self).accumulated@);
                let page_max = spec_max_ts(page.messages@);
                &&& final(self).accumulated@ == old(self).accumulated@ + page.messages@
                &&& final(self).cursor@ == nc
                &&& !final(self).exhausted
                &&& (nc.len() == 0 && acc_max == page_max ==> final(self).converged
                    && final(self).start_time == old(self).start_time)
                &&& (nc.len() == 0 && acc_max != page_max ==> final(self).converged
                    == old(self).converged && final(self).start_time@ == page_max)
                &&& (nc.len() > 0 ==> final(self).converged == old(self).converged
                    && final(self).start_time == old(self).start_time)
            },
    {
        self.first_call = false;
        if page.messages.len() == 0 {
            self.converged = true;
            self.exhausted = true;
            return;
        }
        if page.response_metadata.next_cursor.as_str().is_empty() {
            let acc_max = get_max_ts(&self.accumulated);
            let page_max = get_max_ts(&page.messages);
            if acc_max == page_max {
                self.converged = true;
            } else {
                self.start_time = page_max;
            }
        }
        let Root { messages, response_metadata, .. } = page;
        let mut msgs = messages;
        self.cursor = response_metadata.next_cursor;
        self.accumulated.append(&mut msgs);
    }

    /// Hands the assembled history out, in first-seen order.
    pub fn into_messages(self) -> (r: Vec<Message>)
        ensures
            r@ == self.accumulated@,
    {
        self.accumulated
    }
}

/// Law: after a non-empty page with an empty cursor, the engine stops
/// exactly when the page's maximum timestamp equals the previously
/// accumulated maximum; with a different maximum it keeps running in
/// oldest-timestamp mode, bounding the next request by the new maximum.
/// `before` and `after` are the engine states around `apply_page`, related
/// as its contract states for a page holding `msgs` and an empty cursor.
pub proof fn lemma_convergence_edge_case(
    before: PaginationEngine,
    after: PaginationEngine,
    msgs: Seq<Message>,
)
    requires
        msgs.len() > 0,
        !after.first_call,
        after.accumulated@ == before.accumulated@ + msgs,
        after.cursor@.len() == 0,
        !after.exhausted,
        spec_max_ts(before.accumulated@) == spec_max_ts(msgs) ==> after.converged,
        spec_max_ts(before.accumulated@) != spec_max_ts(msgs) ==> after.converged
            == before.converged && after.start_time@ == spec_max_ts(msgs),
    ensures
        spec_max_ts(before.accumulated@) == spec_max_ts(msgs) ==> after.spec_state()
            == EngineState::Converged,
        spec_max_ts(before.accumulated@) != spec_max_ts(msgs) && !before.converged ==> {
            &&& after.spec_state() == EngineState::FetchingByOldest
            &&& after.running()
            &&& after.start_time@ == spec_max_ts(msgs)
        },
{
}

/// The query parameters of one history request, in the order the endpoint
/// receives them: the channel, then the continuation, with the page size
/// rendered in decimal.
pub fn history_params(channel: &str, count: u32, cont: &Continuation) -> (r: Vec<(String, String)>)
    ensures
        pairs_view(r@) == match cont {
            Continuation::ByCursor(c) => seq![
                ("channel"@, channel@),
                ("limit"@, spec_decimal(count as nat)),
                ("cursor"@, c@),
            ],
            Continuation::ByOldest(o) => seq![
                ("channel"@, channel@),
                ("oldest"@, o@),
                ("limit"@, spec_decimal(count as nat)),
            ],
        },
{
    let mut r: Vec<(String, String)> = Vec::new();
    let count_str = u32_to_string(count);
    match cont {
        Continuation::ByCursor(c) => {
            r.push((String::from_str("channel"), String::from_str(channel)));
            r.push((String::from_str("limit"), count_str));
            r.push((String::from_str("cursor"), c.clone()));
            proof {
                assert(pairs_view(r@) =~= seq![
                    ("channel"@, channel@),
                    ("limit"@, spec_decimal(count as nat)),
                    ("cursor"@, c@),
                ]);
            }
        },
        Continuation::ByOldest(o) => {
            r.push((String::from_str("channel"), String::from_str(channel)));
            r.push((String::from_str("oldest"), o.clone()));
            r.push((String::from_str("limit"), count_str));
            proof {
                assert(pairs_view(r@) =~= seq![
                    ("channel"@, channel@),
                    ("oldest"@, o@),
                    ("limit"@, spec_decimal(count as nat)),
                ]);
            }
        },
    }
    r
}

} // verus!
