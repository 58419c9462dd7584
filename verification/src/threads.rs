//! The thread reconciler: which timestamps name a canonical thread, and
//! which fetched reply lists count as real threads.

use vstd::prelude::*;

use crate::model::message::Message;
use crate::text::{contains_chars, contains_seq};

verus! {

/// The channel-join system notice whose bearers are no thread roots.
pub open spec fn join_notice() -> Seq<char> {
    "has joined the channel"@
}

/// The thread id a message contributes: its `thread_ts` when it has one,
/// else its own `ts` when that is non-empty and the text is not a
/// channel-join notice.
pub open spec fn spec_contribution(m: Message) -> Option<Seq<char>> {
    match m.thread_ts {
        Some(t) => Some(t@),
        None => if m.ts@.len() > 0 && !contains_seq(m.text@, join_notice()) {
            Some(m.ts@)
        } else {
            None
        },
    }
}

/// The canonical thread ids of a message list: every contribution, in
/// first-seen order, each exactly once.
pub open spec fn spec_canonical_ids(ms: Seq<Message>) -> Seq<Seq<char>>
    decreases ms.len(),
{
    if ms.len() == 0 {
        Seq::<Seq<char>>::empty()
    } else {
        let prev = spec_canonical_ids(ms.drop_last());
        match spec_contribution(ms.last()) {
            Some(t) => if prev.contains(t) {
                prev
            } else {
                prev.push(t)
            },
            None => prev,
        }
    }
}

/// Whether some string in `v` reads `s`.
fn vec_contains_str(v: &Vec<String>, s: &str) -> (r: bool)
    ensures
        r == v@.map_values(|x: String| x@).contains(s@),
{
    let n = v.len();
    let mut i: usize = 0;
    while i < n
        invariant
            0 <= i <= n,
            n == v@.len(),
            forall|j: int| 0 <= j < i ==> (#[trigger] v@[j])@ != s@,
        decreases n - i,
    {
        if crate::text::str_eq(v[i].as_str(), s) {
            proof {
                assert(v@.map_values(|x: String| x@)[i as int] == s@);
            }
            return true;
        }
        i += 1;
    }
    proof {
        let mapped = v@.map_values(|x: String| x@);
        if mapped.contains(s@) {
            let w = choose|w: int| 0 <= w < mapped.len() && #[trigger] mapped[w] == s@;
            assert(v@[w]@ == s@);
        }
    }
    false
}

/// Collects the canonical thread ids of `messages`, deduplicated, in
/// first-seen order.
#[verifier::loop_isolation(false)]
pub fn canonical_thread_ids(messages: &Vec<Message>) -> (r: Vec<String>)
    ensures
        r@.map_values(|s: String| s@) == spec_canonical_ids(messages@),
{
    let n = messages.len();
    let mut r: Vec<String> = Vec::new();
    let mut i: usize = 0;
    while i < n
        invariant
            0 <= i <= n,
            r@.map_values(|s: String| s@) == spec_canonical_ids(messages@.subrange(0, i as int)),
        decreases n - i,
    {
        proof {
            assert(messages@.subrange(0, i + 1).drop_last() =~= messages@.subrange(0, i as int));
            assert(messages@.subrange(0, i + 1).last() == messages@[i as int]);
        }
        let m = &messages[i];
        let contribution: Option<String> = match &m.thread_ts {
            Some(t) => Some(t.clone()),
            None => {
                if !m.ts.as_str().is_empty() && !contains_chars(
                    m.text.as_str(),
                    "has joined the channel",
                ) {
                    Some(m.ts.clone())
                } else {
                    None
                }
            },
        };
        match contribution {
            Some(t) => {
                if !vec_contains_str(&r, t.as_str()) {
                    let ghost pre = r@;
                    r.push(t);
                    proof {
                        assert(r@.map_values(|s: String| s@) =~= pre.map_values(|s: String| s@)
                            .push(r@.last()@));
                    }
                }
            },
            None => {
            },
        }
        i += 1;
    }
    proof {
        assert(messages@.subrange(0, n as int) =~= messages@);
    }
    r
}

/// The reply lists that are real threads: those with more than one message,
/// kept in the order they were fetched.
pub open spec fn spec_build_threads(fetched: Seq<Vec<Message>>) -> Seq<Vec<Message>>
    decreases fetched.len(),
{
    if fetched.len() == 0 {
        Seq::<Vec<Message>>::empty()
    } else {
        let prev = spec_build_threads(fetched.drop_last());
        if fetched.last()@.len() > 1 {
            prev.push(fetched.last())
        } else {
            prev
        }
    }
}

/// Law: a fetched thread of length one or less is excluded; one of length
/// two or more is kept; the kept threads stay in fetch order. The result is
/// exactly `spec_build_threads` of the input.
#[verifier::loop_isolation(false)]
pub fn build_threads(fetched: Vec<Vec<Message>>) -> (r: Vec<Vec<Message>>)
    ensures
        r@ == spec_build_threads(fetched@),
{
    let ghost orig = fetched@;
    let ghost mut processed: Seq<Vec<Message>> = Seq::<Vec<Message>>::empty();
    let mut rest = fetched;
    let mut r: Vec<Vec<Message>> = Vec::new();
    while rest.len() > 0
        invariant
            processed + rest@ == orig,
            r@ == spec_build_threads(processed),
        decreases rest@.len(),
    {
        let ghost before = rest@;
        let ghost prev = processed;
        let t = rest.remove(0);
        proof {
            assert(rest@ =~= before.drop_first());
            processed = processed.push(t);
            assert(processed.drop_last() =~= prev);
            assert(processed + rest@ =~= orig);
        }
        if t.len() > 1 {
            r.push(t);
        }
        proof {
            assert(processed.last() == t);
            assert(r@ == spec_build_threads(processed));
        }
    }
    proof {
        assert(processed =~= orig);
    }
    r
}

/// The query parameters of one `conversations.replies` call, as the
/// endpoint expects them.
pub fn replies_params(channel: &str, ts: &str) -> (r: Vec<(String, String)>)
    ensures
        crate::slack::pairs_view(r@) == seq![
            ("channel"@, channel@),
            ("ts"@, ts@),
            ("limit"@, "100"@),
            ("inclusive"@, "true"@),
        ],
{
    let mut r: Vec<(String, String)> = Vec::new();
    r.push((String::from_str("channel"), String::from_str(channel)));
    r.push((String::from_str("ts"), String::from_str(ts)));
    r.push((String::from_str("limit"), String::from_str("100")));
    r.push((String::from_str("inclusive"), String::from_str("true")));
    proof {
        assert(crate::slack::pairs_view(r@) =~= seq![
            ("channel"@, channel@),
            ("ts"@, ts@),
            ("limit"@, "100"@),
            ("inclusive"@, "true"@),
        ]);
    }
    r
}

} // verus!
