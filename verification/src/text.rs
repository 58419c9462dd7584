//! Searching for a pattern inside a byte buffer or a string, and rendering
//! integers as decimal strings. These are the small scanning primitives the
//! decryptor, the authenticator and the thread reconciler share.

use vstd::prelude::*;

verus! {

/// The pattern `needle` occurs in `hay` starting at index `i`.
pub open spec fn match_at<A>(hay: Seq<A>, needle: Seq<A>, i: int) -> bool {
    &&& 0 <= i
    &&& i + needle.len() <= hay.len()
    &&& forall|j: int| 0 <= j < needle.len() ==> hay[i + j] == needle[j]
}

/// The index of the first occurrence of `needle` at or after `i`, if any.
pub open spec fn first_match_from<A>(hay: Seq<A>, needle: Seq<A>, i: int) -> Option<int>
    decreases hay.len() - i when 0 <= i <= hay.len()
{
    if i + needle.len() > hay.len() {
        None
    } else if match_at(hay, needle, i) {
        Some(i)
    } else {
        first_match_from(hay, needle, i + 1)
    }
}

/// The pattern `needle` occurs somewhere in `hay`.
pub open spec fn contains_seq<A>(hay: Seq<A>, needle: Seq<A>) -> bool {
    exists|i: int| match_at(hay, needle, i)
}

/// `first_match_from` skips over positions that do not match.
pub proof fn lemma_first_match_skip<A>(hay: Seq<A>, needle: Seq<A>, s: int, i: int)
    requires
        0 <= s <= i <= hay.len(),
        forall|j: int| s <= j < i ==> !match_at(hay, needle, j),
    ensures
        first_match_from(hay, needle, s) == first_match_from(hay, needle, i),
    decreases i - s,
{
    if s < i {
        lemma_first_match_skip(hay, needle, s + 1, i);
    }
}

/// Positions past the end never match, so the search from there finds nothing.
pub proof fn lemma_first_match_none_past_end<A>(hay: Seq<A>, needle: Seq<A>, i: int)
    requires
        0 <= i <= hay.len(),
        i + needle.len() > hay.len(),
    ensures
        first_match_from(hay, needle, i) is None,
{
}

/// A found match at the first non-skipped position is the first match.
proof fn lemma_first_match_found<A>(hay: Seq<A>, needle: Seq<A>, i: int)
    requires
        0 <= i,
        match_at(hay, needle, i),
        forall|j: int| 0 <= j < i ==> !match_at(hay, needle, j),
    ensures
        first_match_from(hay, needle, 0) == Some(i),
{
    lemma_first_match_skip(hay, needle, 0, i);
}

/// Whether `needle` occurs in `hay` at position `i`.
fn bytes_match_at(hay: &Vec<u8>, needle: &Vec<u8>, i: usize) -> (r: bool)
    requires
        i + needle@.len() <= hay@.len(),
    ensures
        r == match_at(hay@, needle@, i as int),
{
    let hn = hay.len();
    let mut j: usize = 0;
    while j < needle.len()
        invariant
            hn == hay@.len(),
            i + needle@.len() <= hay@.len(),
            0 <= j <= needle@.len(),
            forall|k: int| 0 <= k < j ==> hay@[i + k] == needle@[k],
        decreases needle@.len() - j,
    {
        if hay[i + j] != needle[j] {
            return false;
        }
        j += 1;
    }
    true
}

/// The index of the first occurrence of `needle` in `hay`, or `None`.
pub fn find_bytes(hay: &Vec<u8>, needle: &Vec<u8>) -> (r: Option<usize>)
    ensures
        match r {
            Some(i) => first_match_from(hay@, needle@, 0) == Some(i as int) && match_at(
                hay@,
                needle@,
                i as int,
            ),
            None => first_match_from(hay@, needle@, 0) is None,
        },
{
    if needle.len() > hay.len() {
        proof {
            lemma_first_match_none_past_end(hay@, needle@, 0);
        }
        return None;
    }
    if needle.len() == 0 {
        proof {
            lemma_first_match_found(hay@, needle@, 0);
        }
        return Some(0);
    }
    let last = hay.len() - needle.len();
    let mut i: usize = 0;
    while i <= last
        invariant
            1 <= needle@.len() <= hay@.len(),
            last == hay@.len() - needle@.len(),
            last < usize::MAX,
            0 <= i <= last + 1,
            forall|j: int| 0 <= j < i ==> !match_at(hay@, needle@, j),
        decreases last + 1 - i,
    {
        if bytes_match_at(hay, needle, i) {
            proof {
                lemma_first_match_found(hay@, needle@, i as int);
            }
            return Some(i);
        }
        i += 1;
    }
    proof {
        lemma_first_match_skip(hay@, needle@, 0, i as int);
        lemma_first_match_none_past_end(hay@, needle@, i as int);
    }
    None
}

/// Whether `pat` occurs in `text` at character position `i`.
pub fn chars_match_at(text: &str, pat: &str, i: usize, n: usize, m: usize) -> (r: bool)
    requires
        n == text@.len(),
        m == pat@.len(),
        i + m <= n,
    ensures
        r == match_at(text@, pat@, i as int),
{
    let mut j: usize = 0;
    while j < m
        invariant
            n == text@.len(),
            m == pat@.len(),
            i + m <= n,
            0 <= j <= m,
            forall|k: int| 0 <= k < j ==> text@[i + k] == pat@[k],
        decreases m - j,
    {
        if text.get_char(i + j) != pat.get_char(j) {
            return false;
        }
        j += 1;
    }
    true
}

/// The index of the first occurrence of `pat` in `text`, counted in
/// characters, or `None` if `pat` never occurs.
pub fn find_chars(text: &str, pat: &str) -> (r: Option<usize>)
    ensures
        match r {
            Some(i) => first_match_from(text@, pat@, 0) == Some(i as int) && match_at(
                text@,
                pat@,
                i as int,
            ),
            None => first_match_from(text@, pat@, 0) is None,
        },
{
    let n = text.unicode_len();
    let m = pat.unicode_len();
    if m > n {
        proof {
            lemma_first_match_none_past_end(text@, pat@, 0);
        }
        return None;
    }
    if m == 0 {
        proof {
            lemma_first_match_found(text@, pat@, 0);
        }
        return Some(0);
    }
    let last = n - m;
    let mut i: usize = 0;
    while i <= last
        invariant
            n == text@.len(),
            m == pat@.len(),
            1 <= m <= n,
            last == n - m,
            last < usize::MAX,
            0 <= i <= last + 1,
            forall|j: int| 0 <= j < i ==> !match_at(text@, pat@, j),
        decreases last + 1 - i,
    {
        if chars_match_at(text, pat, i, n, m) {
            proof {
                lemma_first_match_found(text@, pat@, i as int);
            }
            return Some(i);
        }
        i += 1;
    }
    proof {
        lemma_first_match_skip(text@, pat@, 0, i as int);
        lemma_first_match_none_past_end(text@, pat@, i as int);
    }
    None
}

/// Whether `pat` occurs anywhere in `text`.
pub fn contains_chars(text: &str, pat: &str) -> (r: bool)
    ensures
        r == contains_seq(text@, pat@),
{
    let found = find_chars(text, pat);
    proof {
        lemma_contains_iff_first_match(text@, pat@);
    }
    found.is_some()
}

/// `contains_seq` holds exactly when the first-match search succeeds.
proof fn lemma_contains_iff_first_match<A>(hay: Seq<A>, needle: Seq<A>)
    ensures
        contains_seq(hay, needle) <==> first_match_from(hay, needle, 0) is Some,
{
    if contains_seq(hay, needle) {
        let w = choose|i: int| match_at(hay, needle, i);
        lemma_first_match_some(hay, needle, 0, w);
    }
    if first_match_from(hay, needle, 0) is Some {
        lemma_first_match_is_match(hay, needle, 0);
        assert(match_at(hay, needle, first_match_from(hay, needle, 0)->0));
    }
}

/// If any position at or after `s` matches, the search from `s` succeeds.
proof fn lemma_first_match_some<A>(hay: Seq<A>, needle: Seq<A>, s: int, w: int)
    requires
        0 <= s <= w,
        match_at(hay, needle, w),
    ensures
        first_match_from(hay, needle, s) is Some,
    decreases w - s,
{
    if s < w && !match_at(hay, needle, s) {
        lemma_first_match_some(hay, needle, s + 1, w);
    }
}

/// A successful search reports a real occurrence.
proof fn lemma_first_match_is_match<A>(hay: Seq<A>, needle: Seq<A>, s: int)
    requires
        0 <= s <= hay.len(),
        first_match_from(hay, needle, s) is Some,
    ensures
        match_at(hay, needle, first_match_from(hay, needle, s)->0),
    decreases hay.len() - s,
{
    if s + needle.len() > hay.len() {
        assert(false);
    } else if match_at(hay, needle, s) {
    } else {
        lemma_first_match_is_match(hay, needle, s + 1);
    }
}

/// Character-for-character string equality.
pub fn str_eq(a: &str, b: &str) -> (r: bool)
    ensures
        r == (a@ == b@),
{
    let n = a.unicode_len();
    let m = b.unicode_len();
    if n != m {
        proof {
            if a@ == b@ {
                assert(a@.len() == b@.len());
            }
        }
        return false;
    }
    let mut i: usize = 0;
    while i < n
        invariant
            n == a@.len(),
            n == b@.len(),
            0 <= i <= n,
            forall|j: int| 0 <= j < i ==> a@[j] == b@[j],
        decreases n - i,
    {
        if a.get_char(i) != b.get_char(i) {
            proof {
                if a@ == b@ {
                    assert(a@[i as int] == b@[i as int]);
                }
            }
            return false;
        }
        i += 1;
    }
    proof {
        assert(a@ =~= b@);
    }
    true
}

/// The decimal rendering of `n`, most significant digit first.
pub open spec fn spec_decimal(n: nat) -> Seq<char>
    decreases n,
{
    if n < 10 {
        seq![spec_digit_char(n)]
    } else {
        spec_decimal(n / 10).push(spec_digit_char(n % 10))
    }
}

/// The character for a single decimal digit.
pub open spec fn spec_digit_char(d: nat) -> char {
    if d == 0 {
        '0'
    } else if d == 1 {
        '1'
    } else if d == 2 {
        '2'
    } else if d == 3 {
        '3'
    } else if d == 4 {
        '4'
    } else if d == 5 {
        '5'
    } else if d == 6 {
        '6'
    } else if d == 7 {
        '7'
    } else if d == 8 {
        '8'
    } else {
        '9'
    }
}

/// The one-character string for a decimal digit.
fn digit_str(d: u32) -> (s: &'static str)
    requires
        d < 10,
    ensures
        s@ == seq![spec_digit_char(d as nat)],
{
    proof {
        reveal_strlit("0");
        reveal_strlit("1");
        reveal_strlit("2");
        reveal_strlit("3");
        reveal_strlit("4");
        reveal_strlit("5");
        reveal_strlit("6");
        reveal_strlit("7");
        reveal_strlit("8");
        reveal_strlit("9");
    }
    let s = if d == 0 {
        "0"
    } else if d == 1 {
        "1"
    } else if d == 2 {
        "2"
    } else if d == 3 {
        "3"
    } else if d == 4 {
        "4"
    } else if d == 5 {
        "5"
    } else if d == 6 {
        "6"
    } else if d == 7 {
        "7"
    } else if d == 8 {
        "8"
    } else {
        "9"
    };
    proof {
        assert(s@ =~= seq![spec_digit_char(d as nat)]);
    }
    s
}

/// Renders `n` in decimal, as the remote API expects for the `limit` and
/// `count` parameters.
pub fn u32_to_string(n: u32) -> (s: String)
    ensures
        s@ == spec_decimal(n as nat),
    decreases n,
{
    if n < 10 {
        String::from_str(digit_str(n))
    } else {
        let head = u32_to_string(n / 10);
        head.concat(digit_str(n % 10))
    }
}

} // verus!
