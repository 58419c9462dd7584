//! Cookie-based authentication: turning decrypted cookie bytes into a
//! session string, and extracting the short-lived bearer token that the
//! workspace page embeds as `"api_token":"<token>"`.

use vstd::prelude::*;
use vstd::utf8::{decode_utf8, valid_utf8};

use crate::errors::SlackError;
use crate::text::{first_match_from, lemma_first_match_none_past_end, lemma_first_match_skip,
    match_at};

verus! {

/// A cookie-based session: the decrypted cookie and, once authenticated,
/// the bearer token extracted from the workspace page.
pub struct CookieAuth {
    pub cookie: String,
    pub token: Option<String>,
}

impl Clone for CookieAuth {
    fn clone(&self) -> (r: Self)
        ensures
            r == *self,
    {
        CookieAuth {
            cookie: self.cookie.clone(),
            token: match &self.token {
                Option::Some(t) => Option::Some(t.clone()),
                Option::None => Option::None,
            },
        }
    }
}

/// The supported authentication schemes. Only cookie auth exists today.
pub enum Auth {
    Cookie(CookieAuth),
}

impl Clone for Auth {
    fn clone(&self) -> (r: Self)
        ensures
            r == *self,
    {
        match self {
            Auth::Cookie(c) => Auth::Cookie(c.clone()),
        }
    }
}

/// Formats one cookie pair, `key=value`.
pub fn format_cookie(key: &str, value: &str) -> (r: String)
    ensures
        r@ == key@ + "="@ + value@,
{
    let mut s = String::from_str(key);
    s.append("=");
    s.append(value);
    s
}

/// Relies on `String::from_utf8`: succeeds exactly on valid UTF-8 and
/// decodes the bytes to their character sequence.
#[verifier::external_body]
fn string_from_utf8(bytes: Vec<u8>) -> (r: Option<String>)
    ensures
        r is Some <==> valid_utf8(bytes@),
        r matches Some(s) ==> s@ == decode_utf8(bytes@),
{
    String::from_utf8(bytes).ok()
}

/// Decodes the decrypted token bytes into the session-cookie string;
/// bytes that are not valid UTF-8 are a malformed payload.
pub fn cookie_string(token: Vec<u8>) -> (r: Result<String, SlackError>)
    ensures
        valid_utf8(token@) ==> (r matches Ok(s) && s@ == decode_utf8(token@)),
        !valid_utf8(token@) ==> r == Result::<String, SlackError>::Err(SlackError::DecodeError),
{
    match string_from_utf8(token) {
        Option::Some(s) => Result::Ok(s),
        Option::None => Result::Err(SlackError::DecodeError),
    }
}

/// The text that precedes a bearer token in the workspace page.
pub open spec fn token_pattern() -> Seq<char> {
    "\"api_token\":\""@
}

/// The pattern, as the scanner uses it.
fn token_pattern_str() -> (s: &'static str)
    ensures
        s@ == token_pattern(),
{
    "\"api_token\":\""
}

/// The token pattern matches at `i` with a non-empty token and a closing
/// quote: exactly the positions where the pattern
/// `"api_token":"([^"]+)"` matches.
pub open spec fn token_match_at(body: Seq<char>, i: int) -> bool {
    let p = token_pattern();
    &&& match_at(body, p, i)
    &&& i + p.len() < body.len()
    &&& body[i + p.len()] != '"'
    &&& exists|k: int| i + p.len() < k < body.len() && body[k] == '"'
}

/// The first full token match at or after `i`, if any.
pub open spec fn first_token_match(body: Seq<char>, i: int) -> Option<int>
    decreases body.len() - i when 0 <= i <= body.len()
{
    if i >= body.len() {
        None
    } else if token_match_at(body, i) {
        Some(i)
    } else {
        first_token_match(body, i + 1)
    }
}

/// What token extraction returns: the characters between the pattern and
/// the next quote at the first full match, or `TokenNotFound`.
pub open spec fn spec_extract_api_token(body: Seq<char>) -> Result<Seq<char>, SlackError> {
    match first_token_match(body, 0) {
        Option::Some(m) => {
            let s = m + token_pattern().len();
            match first_match_from(body, seq!['"'], s) {
                Option::Some(q) => Result::Ok(body.subrange(s, q)),
                Option::None => Result::Err(SlackError::TokenNotFound),
            }
        },
        Option::None => Result::Err(SlackError::TokenNotFound),
    }
}

/// `first_token_match` skips over positions that do not match.
proof fn lemma_first_token_skip(body: Seq<char>, s: int, i: int)
    requires
        0 <= s <= i <= body.len(),
        forall|j: int| s <= j < i ==> !token_match_at(body, j),
    ensures
        first_token_match(body, s) == first_token_match(body, i),
    decreases i - s,
{
    if s < i {
        lemma_first_token_skip(body, s + 1, i);
    }
}

/// Finds the first quote character at or after `from`.
fn find_quote_from(body: &str, n: usize, from: usize) -> (r: Option<usize>)
    requires
        n == body@.len(),
        from <= n,
    ensures
        match r {
            Some(k) => {
                &&& first_match_from(body@, seq!['"'], from as int) == Some(k as int)
                &&& from <= k < n
                &&& body@[k as int] == '"'
                &&& forall|j: int| from <= j < k ==> body@[j] != '"'
            },
            None => {
                &&& first_match_from(body@, seq!['"'], from as int) is None
                &&& forall|j: int| from <= j < n ==> body@[j] != '"'
            },
        },
{
    let ghost quote: Seq<char> = seq!['"'];
    let mut k: usize = from;
    while k < n
        invariant
            n == body@.len(),
            from <= k <= n,
            quote == seq!['"'],
            forall|j: int| from <= j < k ==> body@[j] != '"',
        decreases n - k,
    {
        let c = body.get_char(k);
        if c == '"' {
            proof {
                assert forall|j: int| from <= j < k implies !match_at(body@, quote, j) by {
                    if match_at(body@, quote, j) {
                        assert(body@[j + 0] == quote[0]);
                    }
                }
                lemma_first_match_skip(body@, quote, from as int, k as int);
                assert(match_at(body@, quote, k as int));
            }
            return Some(k);
        }
        k += 1;
    }
    proof {
        assert forall|j: int| from <= j < n implies !match_at(body@, quote, j) by {
            if match_at(body@, quote, j) {
                assert(body@[j + 0] == quote[0]);
            }
        }
        lemma_first_match_skip(body@, quote, from as int, n as int);
        lemma_first_match_none_past_end(body@, quote, n as int);
    }
    None
}

/// Whether the full token pattern matches at position `i`.
fn token_match_at_exec(body: &str, pat: &str, n: usize, plen: usize, i: usize) -> (r: bool)
    requires
        n == body@.len(),
        plen == pat@.len(),
        pat@ == token_pattern(),
        i <= n,
    ensures
        r == token_match_at(body@, i as int),
{
    if plen > n - i {
        return false;
    }
    if !crate::text::chars_match_at(body, pat, i, n, plen) {
        return false;
    }
    let s = i + plen;
    if s >= n {
        return false;
    }
    if body.get_char(s) == '"' {
        return false;
    }
    match find_quote_from(body, n, s + 1) {
        Some(k) => {
            proof {
                assert(s < k < n && body@[k as int] == '"');
            }
            true
        },
        None => {
            proof {
                assert(forall|k: int| s < k < n ==> body@[k] != '"');
            }
            false
        },
    }
}

/// Extracts the bearer token embedded in the workspace page, exactly as
/// `spec_extract_api_token` describes; fails with `TokenNotFound` when the
/// page embeds none.
pub fn extract_api_token(body: &str) -> (r: Result<String, SlackError>)
    ensures
        match r {
            Result::Ok(t) => spec_extract_api_token(body@) == Result::<Seq<char>, SlackError>::Ok(
                t@,
            ),
            Result::Err(e) => spec_extract_api_token(body@) == Result::<Seq<char>, SlackError>::Err(
                e,
            ),
        },
{
    let n = body.unicode_len();
    let pat = token_pattern_str();
    let plen = pat.unicode_len();
    let mut i: usize = 0;
    while i < n
        invariant
            n == body@.len(),
            plen == pat@.len(),
            pat@ == token_pattern(),
            0 <= i <= n,
            forall|j: int| 0 <= j < i ==> !token_match_at(body@, j),
        decreases n - i,
    {
        if token_match_at_exec(body, pat, n, plen, i) {
            proof {
                lemma_first_token_skip(body@, 0, i as int);
                assert(first_token_match(body@, 0) == Some(i as int));
            }
            let s = i + plen;
            match find_quote_from(body, n, s + 1) {
                Some(q) => {
                    proof {
                        assert(!match_at(body@, seq!['"'], s as int)) by {
                            if match_at(body@, seq!['"'], s as int) {
                                assert(body@[s + 0] == seq!['"'][0]);
                            }
                        }
                        lemma_first_match_skip(body@, seq!['"'], s as int, s + 1);
                    }
                    let token = body.substring_char(s, q);
                    return Result::Ok(String::from_str(token));
                },
                None => {
                    // a full match guarantees a closing quote
                    proof {
                        assert(false);
                    }
                },
            }
        }
        i += 1;
    }
    proof {
        lemma_first_token_skip(body@, 0, n as int);
    }
    Result::Err(SlackError::TokenNotFound)
}

} // verus!
