//! Ordering messages and search matches by timestamp: the read views print
//! history oldest-first, the search view newest-first. Both first drop the
//! entries the views never show — empty-text messages, and matches found in
//! multi-party direct channels.

use vstd::prelude::*;
use vstd::multiset::Multiset;
use vstd::seq_lib::group_to_multiset_ensures;

use crate::model::message::Message;
use crate::model::search::Match;
use crate::ts::{lemma_ts_le_total, lemma_ts_le_trans, ts_le, ts_le_str};

verus! {

broadcast use group_to_multiset_ensures;

/// The messages kept for printing: those with non-empty text, in order.
pub open spec fn spec_kept_messages(ms: Seq<Message>) -> Seq<Message>
    decreases ms.len(),
{
    if ms.len() == 0 {
        Seq::<Message>::empty()
    } else {
        let prev = spec_kept_messages(ms.drop_last());
        if ms.last().text@.len() > 0 {
            prev.push(ms.last())
        } else {
            prev
        }
    }
}

/// Nondecreasing by timestamp.
pub open spec fn sorted_asc(ms: Seq<Message>) -> bool {
    forall|i: int, j: int| 0 <= i < j < ms.len() ==> ts_le(#[trigger] ms[i].ts@, #[trigger] ms[j].ts@)
}

/// Drops empty-text messages and sorts the rest by ascending timestamp:
/// the same multiset of messages, oldest first.
pub fn order_messages(messages: Vec<Message>) -> (r: Vec<Message>)
    ensures
        r@.to_multiset() == spec_kept_messages(messages@).to_multiset(),
        sorted_asc(r@),
{
    let ghost orig = messages@;
    let ghost mut processed: Seq<Message> = Seq::<Message>::empty();
    let mut rest = messages;
    let mut kept: Vec<Message> = Vec::new();
    while rest.len() > 0
        invariant
            processed + rest@ == orig,
            kept@ == spec_kept_messages(processed),
        decreases rest@.len(),
    {
        let ghost before = rest@;
        let ghost prev = processed;
        let m = rest.remove(0);
        proof {
            assert(rest@ =~= before.drop_first());
            processed = processed.push(m);
            assert(processed.drop_last() =~= prev);
            assert(processed + rest@ =~= orig);
        }
        if !m.text.as_str().is_empty() {
            kept.push(m);
        }
    }
    proof {
        assert(processed =~= orig);
    }
    sort_messages_asc(kept)
}

/// Selection sort, ascending by timestamp.
fn sort_messages_asc(input: Vec<Message>) -> (r: Vec<Message>)
    ensures
        r@.to_multiset() == input@.to_multiset(),
        sorted_asc(r@),
{
    let ghost orig = input@;
    let mut rem = input;
    let mut out: Vec<Message> = Vec::new();
    while rem.len() > 0
        invariant
            out@.to_multiset().add(rem@.to_multiset()) == orig.to_multiset(),
            sorted_asc(out@),
            forall|i: int, j: int|
                0 <= i < out@.len() && 0 <= j < rem@.len() ==> ts_le(
                    #[trigger] out@[i].ts@,
                    #[trigger] rem@[j].ts@,
                ),
        decreases rem@.len(),
    {
        let mi = min_ts_index(&rem);
        let ghost pre_rem = rem@;
        let ghost pre_out = out@;
        let m = rem.remove(mi);
        out.push(m);
        proof {
            assert(pre_rem.contains(m)) by {
                assert(pre_rem[mi as int] == m);
            }
            assert(out@.to_multiset() =~= pre_out.to_multiset().insert(m));
            assert(rem@.to_multiset() =~= pre_rem.to_multiset().remove(m));
            assert(out@.to_multiset().add(rem@.to_multiset()) =~= orig.to_multiset());
            assert forall|i: int, j: int|
                0 <= i < out@.len() && 0 <= j < rem@.len() implies ts_le(
                #[trigger] out@[i].ts@,
                #[trigger] rem@[j].ts@,
            ) by {
                let rj = if j < mi {
                    pre_rem[j]
                } else {
                    pre_rem[j + 1]
                };
                assert(rem@[j] == rj);
                if i < pre_out.len() {
                    assert(out@[i] == pre_out[i]);
                } else {
                    assert(out@[i] == m);
                }
            }
            assert forall|i: int, j: int| 0 <= i < j < out@.len() implies ts_le(
                #[trigger] out@[i].ts@,
                #[trigger] out@[j].ts@,
            ) by {
                if j < pre_out.len() {
                } else {
                    assert(out@[j] == m);
                    assert(ts_le(pre_out[i].ts@, pre_rem[mi as int].ts@));
                }
            }
        }
    }
    proof {
        assert(rem@.to_multiset() =~= Multiset::<Message>::empty());
        assert(out@.to_multiset() =~= orig.to_multiset());
    }
    out
}

/// The index of a message whose timestamp is minimal (the first such).
fn min_ts_index(rem: &Vec<Message>) -> (mi: usize)
    requires
        rem@.len() > 0,
    ensures
        0 <= mi < rem@.len(),
        forall|j: int| 0 <= j < rem@.len() ==> ts_le(rem@[mi as int].ts@, (#[trigger] rem@[j]).ts@),
{
    let n = rem.len();
    let mut mi: usize = 0;
    let mut k: usize = 1;
    while k < n
        invariant
            n == rem@.len(),
            0 <= mi < k <= n,
            forall|j: int| 0 <= j < k ==> ts_le(rem@[mi as int].ts@, (#[trigger] rem@[j]).ts@),
        decreases n - k,
    {
        if !ts_le_str(rem[mi].ts.as_str(), rem[k].ts.as_str()) {
            let ghost old_mi = mi as int;
            proof {
                lemma_ts_le_total(rem@[old_mi].ts@, rem@[k as int].ts@);
            }
            mi = k;
            proof {
                assert forall|j: int| 0 <= j < k + 1 implies ts_le(
                    rem@[mi as int].ts@,
                    (#[trigger] rem@[j]).ts@,
                ) by {
                    if j < k {
                        lemma_ts_le_trans(rem@[k as int].ts@, rem@[old_mi].ts@, rem@[j].ts@);
                    }
                }
            }
        }
        k += 1;
    }
    mi
}

/// The matches kept for display: those outside multi-party direct
/// channels, in order.
pub open spec fn spec_kept_matches(ms: Seq<Match>) -> Seq<Match>
    decreases ms.len(),
{
    if ms.len() == 0 {
        Seq::<Match>::empty()
    } else {
        let prev = spec_kept_matches(ms.drop_last());
        if !ms.last().channel.is_mpim {
            prev.push(ms.last())
        } else {
            prev
        }
    }
}

/// Nonincreasing by timestamp.
pub open spec fn sorted_desc(ms: Seq<Match>) -> bool {
    forall|i: int, j: int| 0 <= i < j < ms.len() ==> ts_le(#[trigger] ms[j].ts@, #[trigger] ms[i].ts@)
}

/// Drops matches from multi-party direct channels and sorts the rest by
/// descending timestamp: the same multiset of matches, newest first.
pub fn order_search_matches(matches: Vec<Match>) -> (r: Vec<Match>)
    ensures
        r@.to_multiset() == spec_kept_matches(matches@).to_multiset(),
        sorted_desc(r@),
{
    let ghost orig = matches@;
    let ghost mut processed: Seq<Match> = Seq::<Match>::empty();
    let mut rest = matches;
    let mut kept: Vec<Match> = Vec::new();
    while rest.len() > 0
        invariant
            processed + rest@ == orig,
            kept@ == spec_kept_matches(processed),
        decreases rest@.len(),
    {
        let ghost before = rest@;
        let ghost prev = processed;
        let m = rest.remove(0);
        proof {
            assert(rest@ =~= before.drop_first());
            processed = processed.push(m);
            assert(processed.drop_last() =~= prev);
            assert(processed + rest@ =~= orig);
        }
        if !m.channel.is_mpim {
            kept.push(m);
        }
    }
    proof {
        assert(processed =~= orig);
    }
    sort_matches_desc(kept)
}

/// Selection sort, descending by timestamp.
fn sort_matches_desc(input: Vec<Match>) -> (r: Vec<Match>)
    ensures
        r@.to_multiset() == input@.to_multiset(),
        sorted_desc(r@),
{
    let ghost orig = input@;
    let mut rem = input;
    let mut out: Vec<Match> = Vec::new();
    while rem.len() > 0
        invariant
            out@.to_multiset().add(rem@.to_multiset()) == orig.to_multiset(),
            sorted_desc(out@),
            forall|i: int, j: int|
                0 <= i < out@.len() && 0 <= j < rem@.len() ==> ts_le(
                    #[trigger] rem@[j].ts@,
                    #[trigger] out@[i].ts@,
                ),
        decreases rem@.len(),
    {
        let mi = max_ts_index(&rem);
        let ghost pre_rem = rem@;
        let ghost pre_out = out@;
        let m = rem.remove(mi);
        out.push(m);
        proof {
            assert(pre_rem.contains(m)) by {
                assert(pre_rem[mi as int] == m);
            }
            assert(out@.to_multiset() =~= pre_out.to_multiset().insert(m));
            assert(rem@.to_multiset() =~= pre_rem.to_multiset().remove(m));
            assert(out@.to_multiset().add(rem@.to_multiset()) =~= orig.to_multiset());
            assert forall|i: int, j: int|
                0 <= i < out@.len() && 0 <= j < rem@.len() implies ts_le(
                #[trigger] rem@[j].ts@,
                #[trigger] out@[i].ts@,
            ) by {
                let rj = if j < mi {
                    pre_rem[j]
                } else {
                    pre_rem[j + 1]
                };
                assert(rem@[j] == rj);
                if i < pre_out.len() {
                    assert(out@[i] == pre_out[i]);
                } else {
                    assert(out@[i] == m);
                }
            }
            assert forall|i: int, j: int| 0 <= i < j < out@.len() implies ts_le(
                #[trigger] out@[j].ts@,
                #[trigger] out@[i].ts@,
            ) by {
                if j < pre_out.len() {
                } else {
                    assert(out@[j] == m);
                    assert(ts_le(pre_rem[mi as int].ts@, pre_out[i].ts@));
                }
            }
        }
    }
    proof {
        assert(rem@.to_multiset() =~= Multiset::<Match>::empty());
        assert(out@.to_multiset() =~= orig.to_multiset());
    }
    out
}

/// The index of a match whose timestamp is maximal (the first such).
fn max_ts_index(rem: &Vec<Match>) -> (mi: usize)
    requires
        rem@.len() > 0,
    ensures
        0 <= mi < rem@.len(),
        forall|j: int| 0 <= j < rem@.len() ==> ts_le((#[trigger] rem@[j]).ts@, rem@[mi as int].ts@),
{
    let n = rem.len();
    let mut mi: usize = 0;
    let mut k: usize = 1;
    while k < n
        invariant
            n == rem@.len(),
            0 <= mi < k <= n,
            forall|j: int| 0 <= j < k ==> ts_le((#[trigger] rem@[j]).ts@, rem@[mi as int].ts@),
        decreases n - k,
    {
        if !ts_le_str(rem[k].ts.as_str(), rem[mi].ts.as_str()) {
            let ghost old_mi = mi as int;
            proof {
                lemma_ts_le_total(rem@[k as int].ts@, rem@[old_mi].ts@);
            }
            mi = k;
            proof {
                assert forall|j: int| 0 <= j < k + 1 implies ts_le(
                    (#[trigger] rem@[j]).ts@,
                    rem@[mi as int].ts@,
                ) by {
                    if j < k {
                        lemma_ts_le_trans(rem@[j].ts@, rem@[old_mi].ts@, rem@[k as int].ts@);
                    }
                }
            }
        }
        k += 1;
    }
    mi
}

} // verus!
