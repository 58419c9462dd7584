//! The API client: authenticated request construction, identifier
//! resolution with a per-run memo for synthesized names, and the mapping of
//! listing responses into cache records.

use vstd::prelude::*;

use crate::auth::Auth;
use crate::errors::SlackError;
use crate::model::channels;
use crate::model::domain::{Channel, User};
use crate::model::users::Member;

verus! {

/// Whether the URL library accepts `base` as an absolute URL.
pub uninterp spec fn url_base_ok(base: Seq<char>) -> bool;

/// The URL obtained from `base` by appending each pair as a
/// percent-encoded query parameter. The result depends on the arguments
/// alone.
pub uninterp spec fn url_with_query(base: Seq<char>, params: Seq<(Seq<char>, Seq<char>)>) -> Seq<
    char,
>;

/// Query parameters as pairs of character sequences.
pub open spec fn pairs_view(ps: Seq<(String, String)>) -> Seq<(Seq<char>, Seq<char>)> {
    ps.map_values(|p: (String, String)| (p.0@, p.1@))
}

/// Relies on the url crate: `Url::parse` accepts or rejects the base URL by
/// its arguments alone, and `query_pairs_mut().append_pair` appends each
/// pair percent-encoded; `String::from(Url)` renders the result.
#[verifier::external_body]
fn append_query(base: &str, params: &Vec<(String, String)>) -> (r: Option<String>)
    ensures
        r is Some <==> url_base_ok(base@),
        r matches Some(u) ==> u@ == url_with_query(base@, pairs_view(params@)),
{
    let mut url = match base.parse::<url::Url>() {
        Ok(u) => u,
        Err(_) => return None,
    };
    for (k, v) in params.iter() {
        url.query_pairs_mut().append_pair(k, v);
    }
    Some(String::from(url))
}

/// The host-dependent endpoint URL: the team subdomain host, or the generic
/// host that the history and search endpoints use.
pub open spec fn spec_base_url(team: Seq<char>, path: Seq<char>, use_team_name: bool) -> Seq<
    char,
> {
    if use_team_name {
        "https://"@ + team + ".slack.com/api/"@ + path
    } else {
        "https://slack.com/api/"@ + path
    }
}

/// Builds the endpoint URL before query parameters.
fn build_base_url(team: &str, path: &str, use_team_name: bool) -> (r: String)
    ensures
        r@ == spec_base_url(team@, path@, use_team_name),
{
    let mut s = String::new();
    if use_team_name {
        s.append("https://");
        s.append(team);
        s.append(".slack.com/api/");
        s.append(path);
    } else {
        s.append("https://slack.com/api/");
        s.append(path);
    }
    s
}

/// One fully prepared API request: the URL with its query, and the three
/// headers every call carries.
pub struct ApiRequest {
    pub url: String,
    pub cookie_header: String,
    pub authorization_header: String,
    pub content_type_header: String,
}

/// The memo of synthesized names as pairs of character sequences.
pub open spec fn memo_view(m: Seq<(String, String)>) -> Seq<(Seq<char>, Seq<char>)> {
    m.map_values(|p: (String, String)| (p.0@, p.1@))
}

/// The name memoized for `id` at or after position `i`, if any.
pub open spec fn memo_lookup_from(m: Seq<(Seq<char>, Seq<char>)>, id: Seq<char>, i: int) -> Option<
    Seq<char>,
>
    decreases m.len() - i when 0 <= i <= m.len()
{
    if i >= m.len() {
        None
    } else if m[i].0 == id {
        Some(m[i].1)
    } else {
        memo_lookup_from(m, id, i + 1)
    }
}

/// The name memoized for `id`, if any.
pub open spec fn memo_lookup(m: Seq<(Seq<char>, Seq<char>)>, id: Seq<char>) -> Option<Seq<char>> {
    memo_lookup_from(m, id, 0)
}

/// Resolution on a cache miss: the memoized name if one exists, else the
/// fresh name, which is then memoized.
pub open spec fn spec_resolve_user(
    memo: Seq<(Seq<char>, Seq<char>)>,
    id: Seq<char>,
    fresh: Seq<char>,
) -> (Seq<char>, Seq<(Seq<char>, Seq<char>)>) {
    match memo_lookup(memo, id) {
        Some(n) => (n, memo),
        None => (fresh, memo.push((id, fresh))),
    }
}

/// A memo without `id` looks the appended entry up.
proof fn lemma_memo_lookup_push_from(
    m: Seq<(Seq<char>, Seq<char>)>,
    id: Seq<char>,
    fresh: Seq<char>,
    i: int,
)
    requires
        0 <= i <= m.len(),
        memo_lookup_from(m, id, i) is None,
    ensures
        memo_lookup_from(m.push((id, fresh)), id, i) == Some(fresh),
    decreases m.len() - i,
{
    if i < m.len() {
        lemma_memo_lookup_push_from(m, id, fresh, i + 1);
    }
}

/// Law: within one run, resolving the same id twice on cache misses yields
/// the same synthesized name both times, and the second resolution leaves
/// the memo unchanged — whatever fresh names the generator produced.
pub proof fn lemma_resolver_deterministic(
    memo: Seq<(Seq<char>, Seq<char>)>,
    id: Seq<char>,
    fresh1: Seq<char>,
    fresh2: Seq<char>,
)
    ensures
        ({
            let (n1, m1) = spec_resolve_user(memo, id, fresh1);
            let (n2, m2) = spec_resolve_user(m1, id, fresh2);
            n2 == n1 && m2 == m1
        }),
{
    match memo_lookup(memo, id) {
        Some(n) => {
        },
        None => {
            lemma_memo_lookup_push_from(memo, id, fresh1, 0);
        },
    }
}

/// Appending an entry for one id leaves every other id's lookup unchanged.
proof fn lemma_memo_lookup_push_other_from(
    m: Seq<(Seq<char>, Seq<char>)>,
    other: Seq<char>,
    id: Seq<char>,
    fresh: Seq<char>,
    i: int,
)
    requires
        0 <= i <= m.len(),
        other != id,
    ensures
        memo_lookup_from(m.push((id, fresh)), other, i) == memo_lookup_from(m, other, i),
    decreases m.len() - i,
{
    let pushed = m.push((id, fresh));
    if i < m.len() {
        lemma_memo_lookup_push_other_from(m, other, id, fresh, i + 1);
    } else {
        assert(pushed[i].0 == id);
        assert(memo_lookup_from(pushed, other, i + 1) is None);
        assert(memo_lookup_from(m, other, i) is None);
    }
}

/// Law: resolving one id never changes the name memoized for any other id;
/// distinct ids keep independent entries.
pub proof fn lemma_resolver_ids_independent(
    memo: Seq<(Seq<char>, Seq<char>)>,
    other: Seq<char>,
    id: Seq<char>,
    fresh: Seq<char>,
)
    requires
        other != id,
    ensures
        memo_lookup(spec_resolve_user(memo, id, fresh).1, other) == memo_lookup(memo, other),
{
    match memo_lookup(memo, id) {
        Some(n) => {
        },
        None => {
            lemma_memo_lookup_push_other_from(memo, other, id, fresh, 0);
        },
    }
}

/// Relies on `rand::Rng::gen_range` over `rand::thread_rng`: a value drawn
/// from the half-open range. Nothing more is promised of a random draw.
#[verifier::external_body]
fn random_in_range(lo: u32, hi: u32) -> (r: u32)
    requires
        lo < hi,
    ensures
        lo <= r < hi,
{
    rand::Rng::gen_range(&mut rand::thread_rng(), lo..hi)
}

/// Relies on the fake crate's person-name generator for the `fr_fr` locale;
/// the result is random.
#[verifier::external_body]
fn fake_name_fr() -> String {
    let name: String = fake::Fake::fake(&fake::faker::name::raw::Name(fake::locales::FR_FR));
    name
}

/// Relies on the fake crate's person-name generator for the `pt_br` locale;
/// the result is random.
#[verifier::external_body]
fn fake_name_pt_br() -> String {
    let name: String = fake::Fake::fake(&fake::faker::name::raw::Name(fake::locales::PT_BR));
    name
}

/// Relies on the fake crate's person-name generator for the `en` locale;
/// the result is random.
#[verifier::external_body]
fn fake_name_en() -> String {
    let name: String = fake::Fake::fake(&fake::faker::name::raw::Name(fake::locales::EN));
    name
}

/// The session-scoped client: team, credentials and the per-run memo of
/// synthesized user names.
pub struct Slack {
    pub auth: Option<Auth>,
    pub team: Option<String>,
    pub user_map: Vec<(String, String)>,
}

/// A client for `team` carrying an already-established session.
pub fn new(team: &str, auth: Auth) -> (s: Slack)
    ensures
        s.auth == Some(auth),
        s.team matches Some(t) && t@ == team@,
        s.user_map@ =~= Seq::<(String, String)>::empty(),
{
    Slack { auth: Some(auth), team: Some(String::from_str(team)), user_map: Vec::new() }
}

impl Slack {
    /// The session cookie, once authenticated.
    pub open spec fn spec_cookie(&self) -> Seq<char> {
        match self.auth {
            Some(Auth::Cookie(c)) => c.cookie@,
            None => Seq::<char>::empty(),
        }
    }

    /// The bearer token, once authenticated.
    pub open spec fn spec_token(&self) -> Seq<char> {
        match self.auth {
            Some(Auth::Cookie(c)) => match c.token {
                Some(t) => t@,
                None => Seq::<char>::empty(),
            },
            None => Seq::<char>::empty(),
        }
    }

    /// The client holds a team and a complete cookie session.
    pub open spec fn authed(&self) -> bool {
        &&& self.team is Some
        &&& match self.auth {
            Some(Auth::Cookie(c)) => c.token is Some,
            None => false,
        }
    }

    /// The team subdomain.
    pub open spec fn spec_team(&self) -> Seq<char> {
        match self.team {
            Some(t) => t@,
            None => Seq::<char>::empty(),
        }
    }

    /// Prepares one GET or POST request: endpoint URL with percent-encoded
    /// query parameters, and the cookie, bearer and content-type headers.
    pub fn api_request(&self, path: &str, params: &Vec<(String, String)>, use_team_name: bool) -> (r:
        Result<ApiRequest, SlackError>)
        requires
            self.authed(),
        ensures
            ({
                let base = spec_base_url(self.spec_team(), path@, use_team_name);
                match r {
                    Result::Ok(rq) => {
                        &&& url_base_ok(base)
                        &&& rq.url@ == url_with_query(base, pairs_view(params@))
                        &&& rq.cookie_header@ == "d="@ + self.spec_cookie()
                        &&& rq.authorization_header@ == "Bearer "@ + self.spec_token()
                        &&& rq.content_type_header@ == "application/json; charset=utf-8"@
                    },
                    Result::Err(e) => !url_base_ok(base) && e == SlackError::DecodeError,
                }
            }),
    {
        let team = match &self.team {
            Some(t) => t.as_str(),
            None => "",
        };
        let base = build_base_url(team, path, use_team_name);
        let url = match append_query(base.as_str(), params) {
            Some(u) => u,
            None => {
                return Result::Err(SlackError::DecodeError);
            },
        };
        let (cookie_header, authorization_header) = match &self.auth {
            Some(Auth::Cookie(c)) => {
                let cookie_header = crate::auth::format_cookie("d", c.cookie.as_str());
                proof {
                    reveal_strlit("d");
                    reveal_strlit("=");
                    reveal_strlit("d=");
                    assert("d"@ + "="@ =~= "d="@);
                    assert("d"@ + "="@ + c.cookie@ =~= "d="@ + c.cookie@);
                }
                let mut authorization_header = String::from_str("Bearer ");
                match &c.token {
                    Some(t) => authorization_header.append(t.as_str()),
                    None => {
                    },
                };
                (cookie_header, authorization_header)
            },
            None => {
                proof {
                    assert(false);
                }
                return Result::Err(SlackError::DecodeError);
            },
        };
        Result::Ok(
            ApiRequest {
                url,
                cookie_header,
                authorization_header,
                content_type_header: String::from_str("application/json; charset=utf-8"),
            },
        )
    }

    /// The display name for a channel: the name the API supplied inline if
    /// non-empty, else the cached name, else the id itself.
    pub fn get_channel(&self, channel_name: &str, channel_id: &str, cached: Option<Channel>) -> (r:
        String)
        ensures
            channel_name@.len() > 0 ==> r@ == channel_name@,
            channel_name@.len() == 0 ==> match cached {
                Some(c) => r@ == c.name@,
                None => r@ == channel_id@,
            },
    {
        if !channel_name.is_empty() {
            return String::from_str(channel_name);
        }
        match cached {
            Some(c) => c.name,
            None => String::from_str(channel_id),
        }
    }

    /// The display name for a user id. A cache hit is returned unchanged and
    /// never memoized; on a miss the per-run memo answers, synthesizing and
    /// recording a random name the first time an id is seen.
    #[verifier::loop_isolation(false)]
    pub fn get_user_name(&mut self, cached: Option<User>, user_id: String) -> (name: String)
        ensures
            final(self).auth == old(self).auth,
            final(self).team == old(self).team,
            cached matches Some(u) ==> name == u.name && final(self).user_map@ == old(
                self,
            ).user_map@,
            cached is None ==> (name@, memo_view(final(self).user_map@)) == spec_resolve_user(
                memo_view(old(self).user_map@),
                user_id@,
                name@,
            ),
    {
        match cached {
            Some(u) => u.name,
            None => {
                let n = self.user_map.len();
                let mut i: usize = 0;
                while i < n
                    invariant
                        0 <= i <= n,
                        memo_lookup(memo_view(self.user_map@), user_id@) == memo_lookup_from(
                            memo_view(self.user_map@),
                            user_id@,
                            i as int,
                        ),
                    decreases n - i,
                {
                    if self.user_map[i].0 == user_id {
                        return self.user_map[i].1.clone();
                    }
                    i += 1;
                }
                let fresh = generate_random_name();
                let name = fresh.clone();
                self.user_map.push((user_id, fresh));
                proof {
                    assert(memo_view(final(self).user_map@) =~= memo_view(old(self).user_map@).push(
                        (final(self).user_map@.last().0@, final(self).user_map@.last().1@),
                    ));
                }
                name
            },
        }
    }
}

/// A synthesized display name from a locale chosen uniformly at random
/// among the small fixed set.
pub fn generate_random_name() -> String {
    match random_in_range(1, 5) {
        1 => fake_name_fr(),
        2 => fake_name_pt_br(),
        _ => fake_name_en(),
    }
}

/// The query parameters of a `conversations.list` call: public and private
/// channels, one large page.
pub fn channel_list_params() -> (r: Vec<(String, String)>)
    ensures
        pairs_view(r@) == seq![
            ("types"@, "public_channel,private_channel"@),
            ("limit"@, "1000"@),
        ],
{
    let mut r: Vec<(String, String)> = Vec::new();
    r.push((String::from_str("types"), String::from_str("public_channel,private_channel")));
    r.push((String::from_str("limit"), String::from_str("1000")));
    proof {
        assert(pairs_view(r@) =~= seq![
            ("types"@, "public_channel,private_channel"@),
            ("limit"@, "1000"@),
        ]);
    }
    r
}

/// The query parameters of a `search.messages` call.
pub fn search_params(keyword: &str, count: u32) -> (r: Vec<(String, String)>)
    ensures
        pairs_view(r@) == seq![
            ("query"@, keyword@),
            ("count"@, crate::text::spec_decimal(count as nat)),
        ],
{
    let mut r: Vec<(String, String)> = Vec::new();
    r.push((String::from_str("query"), String::from_str(keyword)));
    r.push((String::from_str("count"), crate::text::u32_to_string(count)));
    proof {
        assert(pairs_view(r@) =~= seq![
            ("query"@, keyword@),
            ("count"@, crate::text::spec_decimal(count as nat)),
        ]);
    }
    r
}

/// The body fields of a `chat.postMessage` call.
pub fn message_params(channel: &str, text: &str) -> (r: Vec<(String, String)>)
    ensures
        pairs_view(r@) == seq![("channel"@, channel@), ("text"@, text@)],
{
    let mut r: Vec<(String, String)> = Vec::new();
    r.push((String::from_str("channel"), String::from_str(channel)));
    r.push((String::from_str("text"), String::from_str(text)));
    proof {
        assert(pairs_view(r@) =~= seq![("channel"@, channel@), ("text"@, text@)]);
    }
    r
}

/// Maps listed members to the user records the cache stores.
pub fn users_from_members(members: &Vec<Member>) -> (r: Vec<User>)
    ensures
        r@.len() == members@.len(),
        forall|i: int|
            0 <= i < members@.len() ==> (#[trigger] r@[i]).id@ == members@[i].id@ && r@[i].name@
                == members@[i].name@,
{
    let n = members.len();
    let mut r: Vec<User> = Vec::new();
    let mut i: usize = 0;
    while i < n
        invariant
            0 <= i <= n,
            n == members@.len(),
            r@.len() == i,
            forall|j: int|
                0 <= j < i ==> (#[trigger] r@[j]).id@ == members@[j].id@ && r@[j].name@
                    == members@[j].name@,
        decreases n - i,
    {
        r.push(User { id: members[i].id.clone(), name: members[i].name.clone() });
        i += 1;
    }
    r
}

/// Maps listed channels to the channel records the cache stores.
pub fn channels_from_listing(listed: &Vec<channels::Channel>) -> (r: Vec<Channel>)
    ensures
        r@.len() == listed@.len(),
        forall|i: int|
            0 <= i < listed@.len() ==> (#[trigger] r@[i]).id@ == listed@[i].id@ && r@[i].name@
                == listed@[i].name@ && r@[i].is_channel == listed@[i].is_channel,
{
    let n = listed.len();
    let mut r: Vec<Channel> = Vec::new();
    let mut i: usize = 0;
    while i < n
        invariant
            0 <= i <= n,
            n == listed@.len(),
            r@.len() == i,
            forall|j: int|
                0 <= j < i ==> (#[trigger] r@[j]).id@ == listed@[j].id@ && r@[j].name@
                    == listed@[j].name@ && r@[j].is_channel == listed@[j].is_channel,
        decreases n - i,
    {
        r.push(
            Channel {
                id: listed[i].id.clone(),
                name: listed[i].name.clone(),
                is_channel: listed[i].is_channel,
            },
        );
        i += 1;
    }
    r
}

} // verus!
