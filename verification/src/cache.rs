//! The local cache of user and channel names, keyed by `(team, id)`.
//!
//! Both tables follow replace-on-conflict semantics: writing a row whose key
//! already exists overwrites that row and never duplicates it. The tables are
//! modelled as sequences of `(team, id, payload)` triples over character
//! sequences, shared between the user table (payload: name) and the channel
//! table (payload: name and channel flag).

use vstd::prelude::*;

use crate::errors::SlackError;
use crate::model::domain::{Channel, User};
use crate::text::str_eq;

verus! {

/// The row at or after `i` whose key is `(team, id)`, if any; yields the
/// payload of the first such row.
pub open spec fn tbl_lookup_from<P>(
    rows: Seq<(Seq<char>, Seq<char>, P)>,
    team: Seq<char>,
    id: Seq<char>,
    i: int,
) -> Option<P>
    decreases rows.len() - i when 0 <= i <= rows.len()
{
    if i >= rows.len() {
        None
    } else if rows[i].0 == team && rows[i].1 == id {
        Some(rows[i].2)
    } else {
        tbl_lookup_from(rows, team, id, i + 1)
    }
}

/// The payload stored under `(team, id)`, if any.
pub open spec fn tbl_lookup<P>(
    rows: Seq<(Seq<char>, Seq<char>, P)>,
    team: Seq<char>,
    id: Seq<char>,
) -> Option<P> {
    tbl_lookup_from(rows, team, id, 0)
}

/// The index at or after `i` of the first row keyed `(team, id)`, if any.
pub open spec fn tbl_index_from<P>(
    rows: Seq<(Seq<char>, Seq<char>, P)>,
    team: Seq<char>,
    id: Seq<char>,
    i: int,
) -> Option<int>
    decreases rows.len() - i when 0 <= i <= rows.len()
{
    if i >= rows.len() {
        None
    } else if rows[i].0 == team && rows[i].1 == id {
        Some(i)
    } else {
        tbl_index_from(rows, team, id, i + 1)
    }
}

/// The index of the first row keyed `(team, id)`, if any.
pub open spec fn tbl_index<P>(
    rows: Seq<(Seq<char>, Seq<char>, P)>,
    team: Seq<char>,
    id: Seq<char>,
) -> Option<int> {
    tbl_index_from(rows, team, id, 0)
}

/// Replace-on-conflict: overwrite the row with `row`'s key, or append.
pub open spec fn tbl_upsert<P>(
    rows: Seq<(Seq<char>, Seq<char>, P)>,
    row: (Seq<char>, Seq<char>, P),
) -> Seq<(Seq<char>, Seq<char>, P)> {
    match tbl_index(rows, row.0, row.1) {
        Some(i) => rows.update(i, row),
        None => rows.push(row),
    }
}

/// Upserting each item in order.
pub open spec fn tbl_sync<P>(
    rows: Seq<(Seq<char>, Seq<char>, P)>,
    items: Seq<(Seq<char>, Seq<char>, P)>,
) -> Seq<(Seq<char>, Seq<char>, P)>
    decreases items.len(),
{
    if items.len() == 0 {
        rows
    } else {
        tbl_sync(tbl_upsert(rows, items[0]), items.drop_first())
    }
}

/// No two rows share a key.
pub open spec fn tbl_wf<P>(rows: Seq<(Seq<char>, Seq<char>, P)>) -> bool {
    forall|i: int, j: int|
        0 <= i < j < rows.len() ==> !(#[trigger] rows[i].0 == #[trigger] rows[j].0 && rows[i].1
            == rows[j].1)
}

/// How many rows carry the key `(team, id)`.
pub open spec fn tbl_key_count<P>(
    rows: Seq<(Seq<char>, Seq<char>, P)>,
    team: Seq<char>,
    id: Seq<char>,
) -> nat
    decreases rows.len(),
{
    if rows.len() == 0 {
        0
    } else {
        (if rows[0].0 == team && rows[0].1 == id {
            1nat
        } else {
            0nat
        }) + tbl_key_count(rows.drop_first(), team, id)
    }
}

/// An index search that fails finds no key anywhere at or after its start.
proof fn lemma_index_none_no_match<P>(
    rows: Seq<(Seq<char>, Seq<char>, P)>,
    team: Seq<char>,
    id: Seq<char>,
    s: int,
)
    requires
        0 <= s <= rows.len(),
        tbl_index_from(rows, team, id, s) is None,
    ensures
        forall|j: int| s <= j < rows.len() ==> !(rows[j].0 == team && rows[j].1 == id),
    decreases rows.len() - s,
{
    if s < rows.len() {
        lemma_index_none_no_match(rows, team, id, s + 1);
    }
}

/// An index search that succeeds reports the first matching row.
proof fn lemma_index_some<P>(
    rows: Seq<(Seq<char>, Seq<char>, P)>,
    team: Seq<char>,
    id: Seq<char>,
    s: int,
)
    requires
        0 <= s <= rows.len(),
        tbl_index_from(rows, team, id, s) is Some,
    ensures
        ({
            let i = tbl_index_from(rows, team, id, s)->0;
            &&& s <= i < rows.len()
            &&& rows[i].0 == team && rows[i].1 == id
            &&& forall|j: int| s <= j < i ==> !(rows[j].0 == team && rows[j].1 == id)
        }),
    decreases rows.len() - s,
{
    if !(rows[s].0 == team && rows[s].1 == id) {
        lemma_index_some(rows, team, id, s + 1);
    }
}

/// Index search and lookup agree.
proof fn lemma_index_lookup<P>(
    rows: Seq<(Seq<char>, Seq<char>, P)>,
    team: Seq<char>,
    id: Seq<char>,
    s: int,
)
    requires
        0 <= s <= rows.len(),
    ensures
        match tbl_index_from(rows, team, id, s) {
            Some(i) => tbl_lookup_from(rows, team, id, s) == Some(rows[i].2),
            None => tbl_lookup_from(rows, team, id, s) is None,
        },
    decreases rows.len() - s,
{
    if s < rows.len() && !(rows[s].0 == team && rows[s].1 == id) {
        lemma_index_lookup(rows, team, id, s + 1);
    }
}

/// The first match determines the lookup result.
proof fn lemma_lookup_at_first_match<P>(
    rows: Seq<(Seq<char>, Seq<char>, P)>,
    team: Seq<char>,
    id: Seq<char>,
    s: int,
    k: int,
)
    requires
        0 <= s <= k < rows.len(),
        rows[k].0 == team && rows[k].1 == id,
        forall|j: int| s <= j < k ==> !(rows[j].0 == team && rows[j].1 == id),
    ensures
        tbl_lookup_from(rows, team, id, s) == Some(rows[k].2),
    decreases k - s,
{
    if s < k {
        lemma_lookup_at_first_match(rows, team, id, s + 1, k);
    }
}

/// After an upsert, looking the key up yields the new payload.
pub proof fn lemma_upsert_lookup<P>(
    rows: Seq<(Seq<char>, Seq<char>, P)>,
    row: (Seq<char>, Seq<char>, P),
)
    ensures
        tbl_lookup(tbl_upsert(rows, row), row.0, row.1) == Some(row.2),
{
    match tbl_index(rows, row.0, row.1) {
        Some(i) => {
            lemma_index_some(rows, row.0, row.1, 0);
            let upd = rows.update(i, row);
            assert(forall|j: int|
                0 <= j < i ==> !(#[trigger] upd[j].0 == row.0 && upd[j].1 == row.1));
            lemma_lookup_at_first_match(upd, row.0, row.1, 0, i);
        },
        None => {
            lemma_index_none_no_match(rows, row.0, row.1, 0);
            let pushed = rows.push(row);
            assert(forall|j: int|
                0 <= j < rows.len() ==> !(#[trigger] pushed[j].0 == row.0 && pushed[j].1
                    == row.1));
            lemma_lookup_at_first_match(pushed, row.0, row.1, 0, rows.len() as int);
        },
    }
}

/// An upsert never adds a second row for an existing key.
pub proof fn lemma_upsert_wf<P>(
    rows: Seq<(Seq<char>, Seq<char>, P)>,
    row: (Seq<char>, Seq<char>, P),
)
    requires
        tbl_wf(rows),
    ensures
        tbl_wf(tbl_upsert(rows, row)),
        tbl_index(rows, row.0, row.1) is Some ==> tbl_upsert(rows, row).len() == rows.len(),
        tbl_index(rows, row.0, row.1) is None ==> tbl_upsert(rows, row).len() == rows.len() + 1,
{
    match tbl_index(rows, row.0, row.1) {
        Some(i) => {
            lemma_index_some(rows, row.0, row.1, 0);
        },
        None => {
            lemma_index_none_no_match(rows, row.0, row.1, 0);
        },
    }
}

/// Syncing keeps the key-uniqueness invariant.
pub proof fn lemma_sync_wf<P>(
    rows: Seq<(Seq<char>, Seq<char>, P)>,
    items: Seq<(Seq<char>, Seq<char>, P)>,
)
    requires
        tbl_wf(rows),
    ensures
        tbl_wf(tbl_sync(rows, items)),
    decreases items.len(),
{
    if items.len() > 0 {
        lemma_upsert_wf(rows, items[0]);
        lemma_sync_wf(tbl_upsert(rows, items[0]), items.drop_first());
    }
}

/// A key that matches nowhere is counted zero times.
proof fn lemma_count_zero<P>(
    rows: Seq<(Seq<char>, Seq<char>, P)>,
    team: Seq<char>,
    id: Seq<char>,
)
    requires
        forall|j: int| 0 <= j < rows.len() ==> !(rows[j].0 == team && rows[j].1 == id),
    ensures
        tbl_key_count(rows, team, id) == 0,
    decreases rows.len(),
{
    if rows.len() > 0 {
        assert(forall|j: int|
            0 <= j < rows.drop_first().len() ==> rows.drop_first()[j] == rows[j + 1]);
        lemma_count_zero(rows.drop_first(), team, id);
    }
}

/// In a well-formed table, a key that occurs is counted exactly once.
pub proof fn lemma_wf_count_one<P>(
    rows: Seq<(Seq<char>, Seq<char>, P)>,
    team: Seq<char>,
    id: Seq<char>,
    k: int,
)
    requires
        tbl_wf(rows),
        0 <= k < rows.len(),
        rows[k].0 == team && rows[k].1 == id,
    ensures
        tbl_key_count(rows, team, id) == 1,
    decreases rows.len(),
{
    let rest = rows.drop_first();
    assert(forall|j: int| 0 <= j < rest.len() ==> rest[j] == rows[j + 1]);
    assert(tbl_wf(rest));
    if k == 0 {
        assert(forall|j: int| 0 <= j < rest.len() ==> !(rest[j].0 == team && rest[j].1 == id));
        lemma_count_zero(rest, team, id);
    } else {
        assert(!(rows[0].0 == team && rows[0].1 == id));
        lemma_wf_count_one(rest, team, id, k - 1);
    }
}

/// Replace-on-conflict, twice over: writing a key and then writing it again
/// with another payload leaves a well-formed table in which the key occurs
/// exactly once and holds the most recent payload, and the second write adds
/// no row.
pub proof fn lemma_sync_twice_overwrites<P>(
    rows: Seq<(Seq<char>, Seq<char>, P)>,
    team: Seq<char>,
    id: Seq<char>,
    p1: P,
    p2: P,
)
    requires
        tbl_wf(rows),
    ensures
        ({
            let r1 = tbl_sync(rows, seq![(team, id, p1)]);
            let r2 = tbl_sync(r1, seq![(team, id, p2)]);
            &&& tbl_wf(r2)
            &&& tbl_lookup(r2, team, id) == Some(p2)
            &&& r2.len() == r1.len()
            &&& tbl_key_count(r2, team, id) == 1
        }),
{
    let row1 = (team, id, p1);
    let row2 = (team, id, p2);
    let s1 = seq![row1];
    let s2 = seq![row2];
    let r1 = tbl_upsert(rows, row1);
    let r2 = tbl_upsert(r1, row2);
    assert(s1.drop_first() =~= Seq::<(Seq<char>, Seq<char>, P)>::empty());
    assert(s2.drop_first() =~= Seq::<(Seq<char>, Seq<char>, P)>::empty());
    assert(s1[0] == row1 && s2[0] == row2);
    assert(tbl_sync(r1, s1.drop_first()) == r1);
    assert(tbl_sync(rows, s1) == r1);
    assert(tbl_sync(r2, s2.drop_first()) == r2);
    assert(tbl_sync(r1, s2) == r2);
    lemma_upsert_wf(rows, row1);
    lemma_upsert_lookup(rows, row1);
    lemma_upsert_wf(r1, row2);
    lemma_upsert_lookup(r1, row2);
    lemma_index_lookup(r1, team, id, 0);
    assert(tbl_index(r1, team, id) is Some);
    lemma_index_lookup(r2, team, id, 0);
    assert(tbl_index(r2, team, id) is Some);
    lemma_index_some(r2, team, id, 0);
    lemma_wf_count_one(r2, team, id, tbl_index(r2, team, id)->0);
}

/// The user table as `(team, id, name)` triples.
pub open spec fn users_view(rows: Seq<(String, User)>) -> Seq<(Seq<char>, Seq<char>, Seq<char>)> {
    rows.map_values(|r: (String, User)| (r.0@, r.1.id@, r.1.name@))
}

/// The channel table as `(team, id, (name, is_channel))` triples.
pub open spec fn channels_view(rows: Seq<(String, Channel)>) -> Seq<
    (Seq<char>, Seq<char>, (Seq<char>, bool)),
> {
    rows.map_values(|r: (String, Channel)| (r.0@, r.1.id@, (r.1.name@, r.1.is_channel)))
}

/// An in-memory cache with the same observable behaviour as the embedded
/// database: two tables keyed by `(team, id)`, written with
/// replace-on-conflict semantics.
pub struct InMemoryCache {
    users: Vec<(String, User)>,
    channels: Vec<(String, Channel)>,
}

impl InMemoryCache {
    /// The user table of this cache.
    pub closed spec fn user_table(&self) -> Seq<(Seq<char>, Seq<char>, Seq<char>)> {
        users_view(self.users@)
    }

    /// The channel table of this cache.
    pub closed spec fn channel_table(&self) -> Seq<(Seq<char>, Seq<char>, (Seq<char>, bool))> {
        channels_view(self.channels@)
    }

    /// Both tables keep their keys unique.
    pub open spec fn wf(&self) -> bool {
        tbl_wf(self.user_table()) && tbl_wf(self.channel_table())
    }

    /// An empty cache.
    pub fn new() -> (r: Self)
        ensures
            r.user_table() =~= Seq::<(Seq<char>, Seq<char>, Seq<char>)>::empty(),
            r.channel_table() =~= Seq::<(Seq<char>, Seq<char>, (Seq<char>, bool))>::empty(),
            r.wf(),
    {
        InMemoryCache { users: Vec::new(), channels: Vec::new() }
    }

    /// Prepares the backing schema. An in-memory cache is always ready, and
    /// preparing it again changes nothing.
    pub fn migrate(&self) -> (r: Result<(), SlackError>)
        ensures
            r is Ok,
    {
        Result::Ok(())
    }

    /// The user stored under `(team, id)`, if any.
    pub fn get_user(&self, team: &str, id: &str) -> (r: Option<User>)
        ensures
            match r {
                Some(u) => tbl_lookup(self.user_table(), team@, id@) == Some(u.name@) && u.id@
                    == id@,
                None => tbl_lookup(self.user_table(), team@, id@) is None,
            },
    {
        match find_user_index(&self.users, team, id) {
            Some(i) => {
                proof {
                    lemma_index_lookup(self.user_table(), team@, id@, 0);
                    lemma_index_some(self.user_table(), team@, id@, 0);
                }
                Some(self.users[i].1.clone())
            },
            None => {
                proof {
                    lemma_index_lookup(self.user_table(), team@, id@, 0);
                }
                None
            },
        }
    }

    /// The channel stored under `(team, id)`, if any.
    pub fn get_channel(&self, team: &str, id: &str) -> (r: Option<Channel>)
        ensures
            match r {
                Some(c) => tbl_lookup(self.channel_table(), team@, id@) == Some(
                    (c.name@, c.is_channel),
                ) && c.id@ == id@,
                None => tbl_lookup(self.channel_table(), team@, id@) is None,
            },
    {
        match find_channel_index(&self.channels, team, id) {
            Some(i) => {
                proof {
                    lemma_index_lookup(self.channel_table(), team@, id@, 0);
                    lemma_index_some(self.channel_table(), team@, id@, 0);
                }
                Some(self.channels[i].1.clone())
            },
            None => {
                proof {
                    lemma_index_lookup(self.channel_table(), team@, id@, 0);
                }
                None
            },
        }
    }

    /// Writes every user into the table, replace-on-conflict, as one batch.
    pub fn sync_users(&mut self, team: &str, users: Vec<User>) -> (r: Result<(), SlackError>)
        ensures
            r is Ok,
            final(self).user_table() == tbl_sync(
                old(self).user_table(),
                users@.map_values(|u: User| (team@, u.id@, u.name@)),
            ),
            final(self).channel_table() == old(self).channel_table(),
            old(self).wf() ==> final(self).wf(),
    {
        let ghost items = users@.map_values(|u: User| (team@, u.id@, u.name@));
        proof {
            if old(self).wf() {
                lemma_sync_wf(old(self).user_table(), items);
            }
        }
        let mut rest = users;
        while rest.len() > 0
            invariant
                tbl_sync(old(self).user_table(), items) == tbl_sync(
                    users_view(self.users@),
                    rest@.map_values(|u: User| (team@, u.id@, u.name@)),
                ),
                self.channels@ == old(self).channels@,
            decreases rest@.len(),
        {
            let ghost before = rest@;
            let u = rest.remove(0);
            proof {
                assert(rest@ =~= before.drop_first());
                assert(before.map_values(|x: User| (team@, x.id@, x.name@)).drop_first() =~= rest@
                    .map_values(|x: User| (team@, x.id@, x.name@)));
            }
            upsert_user(&mut self.users, team, u);
        }
        proof {
            assert(rest@.map_values(|u: User| (team@, u.id@, u.name@)) =~= Seq::<
                (Seq<char>, Seq<char>, Seq<char>),
            >::empty());
        }
        Result::Ok(())
    }

    /// Writes every channel into the table, replace-on-conflict, as one batch.
    pub fn sync_channels(&mut self, team: &str, channels: Vec<Channel>) -> (r: Result<
        (),
        SlackError,
    >)
        ensures
            r is Ok,
            final(self).channel_table() == tbl_sync(
                old(self).channel_table(),
                channels@.map_values(|c: Channel| (team@, c.id@, (c.name@, c.is_channel))),
            ),
            final(self).user_table() == old(self).user_table(),
            old(self).wf() ==> final(self).wf(),
    {
        let ghost items = channels@.map_values(|c: Channel| (team@, c.id@, (c.name@, c.is_channel)));
        proof {
            if old(self).wf() {
                lemma_sync_wf(old(self).channel_table(), items);
            }
        }
        let mut rest = channels;
        while rest.len() > 0
            invariant
                tbl_sync(old(self).channel_table(), items) == tbl_sync(
                    channels_view(self.channels@),
                    rest@.map_values(|c: Channel| (team@, c.id@, (c.name@, c.is_channel))),
                ),
                self.users@ == old(self).users@,
            decreases rest@.len(),
        {
            let ghost before = rest@;
            let c = rest.remove(0);
            proof {
                assert(rest@ =~= before.drop_first());
                assert(before.map_values(|x: Channel| (team@, x.id@, (x.name@, x.is_channel)))
                    .drop_first() =~= rest@.map_values(
                    |x: Channel| (team@, x.id@, (x.name@, x.is_channel)),
                ));
            }
            upsert_channel(&mut self.channels, team, c);
        }
        proof {
            assert(rest@.map_values(|c: Channel| (team@, c.id@, (c.name@, c.is_channel))) =~= Seq::<
                (Seq<char>, Seq<char>, (Seq<char>, bool)),
            >::empty());
        }
        Result::Ok(())
    }
}

/// The index of the first user row keyed `(team, id)`.
#[verifier::loop_isolation(false)]
fn find_user_index(rows: &Vec<(String, User)>, team: &str, id: &str) -> (r: Option<usize>)
    ensures
        match r {
            Some(i) => tbl_index(users_view(rows@), team@, id@) == Some(i as int) && i < rows@.len(),
            None => tbl_index(users_view(rows@), team@, id@) is None,
        },
{
    let n = rows.len();
    let mut i: usize = 0;
    while i < n
        invariant
            0 <= i <= n,
            tbl_index(users_view(rows@), team@, id@) == tbl_index_from(
                users_view(rows@),
                team@,
                id@,
                i as int,
            ),
        decreases n - i,
    {
        if str_eq(rows[i].0.as_str(), team) && str_eq(rows[i].1.id.as_str(), id) {
            return Some(i);
        }
        i += 1;
    }
    None
}

/// The index of the first channel row keyed `(team, id)`.
#[verifier::loop_isolation(false)]
fn find_channel_index(rows: &Vec<(String, Channel)>, team: &str, id: &str) -> (r: Option<usize>)
    ensures
        match r {
            Some(i) => tbl_index(channels_view(rows@), team@, id@) == Some(i as int) && i
                < rows@.len(),
            None => tbl_index(channels_view(rows@), team@, id@) is None,
        },
{
    let n = rows.len();
    let mut i: usize = 0;
    while i < n
        invariant
            0 <= i <= n,
            tbl_index(channels_view(rows@), team@, id@) == tbl_index_from(
                channels_view(rows@),
                team@,
                id@,
                i as int,
            ),
        decreases n - i,
    {
        if str_eq(rows[i].0.as_str(), team) && str_eq(rows[i].1.id.as_str(), id) {
            return Some(i);
        }
        i += 1;
    }
    None
}

/// Overwrites the first user row keyed like `user`, or appends one.
fn upsert_user(rows: &mut Vec<(String, User)>, team: &str, user: User)
    ensures
        users_view(final(rows)@) == tbl_upsert(users_view(old(rows)@), (team@, user.id@, user.name@)),
{
    let row = (String::from_str(team), user);
    match find_user_index(rows, team, row.1.id.as_str()) {
        Some(i) => {
            let ghost pre = rows@;
            rows.remove(i);
            rows.insert(i, row);
            proof {
                assert(rows@ =~= pre.update(i as int, (pre[i as int].0, pre[i as int].1)).update(
                    i as int,
                    rows@[i as int],
                ));
                assert(rows@ =~= pre.update(i as int, rows@[i as int]));
                assert(users_view(rows@) =~= users_view(pre).update(
                    i as int,
                    (team@, rows@[i as int].1.id@, rows@[i as int].1.name@),
                ));
            }
        },
        None => {
            rows.push(row);
            proof {
                let pre = old(rows)@;
                assert(users_view(rows@) =~= users_view(pre).push(
                    (team@, rows@[pre.len() as int].1.id@, rows@[pre.len() as int].1.name@),
                ));
            }
        },
    }
}

/// Overwrites the first channel row keyed like `channel`, or appends one.
fn upsert_channel(rows: &mut Vec<(String, Channel)>, team: &str, channel: Channel)
    ensures
        channels_view(final(rows)@) == tbl_upsert(
            channels_view(old(rows)@),
            (team@, channel.id@, (channel.name@, channel.is_channel)),
        ),
{
    let row = (String::from_str(team), channel);
    match find_channel_index(rows, team, row.1.id.as_str()) {
        Some(i) => {
            let ghost pre = rows@;
            rows.remove(i);
            rows.insert(i, row);
            proof {
                assert(rows@ =~= pre.update(i as int, rows@[i as int]));
                assert(channels_view(rows@) =~= channels_view(pre).update(
                    i as int,
                    (team@, rows@[i as int].1.id@, (rows@[i as int].1.name@, rows@[i as int].1.is_channel)),
                ));
            }
        },
        None => {
            rows.push(row);
            proof {
                let pre = old(rows)@;
                assert(channels_view(rows@) =~= channels_view(pre).push(
                    (
                        team@,
                        rows@[pre.len() as int].1.id@,
                        (rows@[pre.len() as int].1.name@, rows@[pre.len() as int].1.is_channel),
                    ),
                ));
            }
        },
    }
}

} // verus!
