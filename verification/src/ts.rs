//! Message timestamps are decimal strings such as `"1728476400.000200"`.
//! They are totally ordered by their numeric value; a string that is not a
//! plain decimal compares below every parseable one, mirroring the
//! desktop client's fallback to the smallest value for unparseable timestamps.
//!
//! A timestamp with at most 19 integer digits and at most 19 fractional
//! digits maps to the exact key `whole * 10^19 + frac * 10^(19 - frac_len)`,
//! so comparing keys compares the numbers exactly.

use vstd::prelude::*;

verus! {

/// `10^e`.
pub open spec fn pow10(e: nat) -> nat
    decreases e,
{
    if e == 0 {
        1
    } else {
        10 * pow10((e - 1) as nat)
    }
}

/// A decimal digit character.
pub open spec fn is_digit(c: char) -> bool {
    48 <= c as u32 && c as u32 <= 57
}

/// The numeric value of a digit character.
pub open spec fn digit_val(c: char) -> nat {
    (c as u32 - 48) as nat
}

/// Every character of `s` is a decimal digit.
pub open spec fn all_digits(s: Seq<char>) -> bool {
    forall|i: int| 0 <= i < s.len() ==> is_digit(#[trigger] s[i])
}

/// The value of a digit string, most significant digit first.
pub open spec fn digits_val(s: Seq<char>) -> nat
    decreases s.len(),
{
    if s.len() == 0 {
        0
    } else {
        digits_val(s.drop_last()) * 10 + digit_val(s.last())
    }
}

/// The index of the first `'.'` in `s`, or `s.len()` if there is none.
pub open spec fn first_dot(s: Seq<char>) -> int
    decreases s.len(),
{
    if s.len() == 0 {
        0
    } else if s[0] == '.' {
        0
    } else {
        1 + first_dot(s.drop_first())
    }
}

/// The ordering key of a timestamp string: `None` for a string that is not
/// `digits` or `digits '.' digits` with each part at most 19 digits long,
/// otherwise the exact scaled numeric value.
pub open spec fn spec_ts_key(s: Seq<char>) -> Option<nat> {
    let d = first_dot(s);
    let ip = s.subrange(0, d);
    let fp = if d < s.len() {
        s.subrange(d + 1, s.len() as int)
    } else {
        Seq::<char>::empty()
    };
    if 1 <= ip.len() <= 19 && fp.len() <= 19 && all_digits(ip) && all_digits(fp) {
        Some(digits_val(ip) * pow10(19) + digits_val(fp) * pow10((19 - fp.len()) as nat))
    } else {
        None
    }
}

/// Timestamp `a` sorts at or below timestamp `b`. An unparseable string
/// sorts below everything, the fallback for an unparseable value.
pub open spec fn ts_le(a: Seq<char>, b: Seq<char>) -> bool {
    match (spec_ts_key(a), spec_ts_key(b)) {
        (Option::None, _) => true,
        (Option::Some(_), Option::None) => false,
        (Option::Some(x), Option::Some(y)) => x <= y,
    }
}

/// `ts_le` is total: any two timestamps compare one way or the other.
pub proof fn lemma_ts_le_total(a: Seq<char>, b: Seq<char>)
    ensures
        ts_le(a, b) || ts_le(b, a),
{
}

/// `ts_le` is transitive.
pub proof fn lemma_ts_le_trans(a: Seq<char>, b: Seq<char>, c: Seq<char>)
    requires
        ts_le(a, b),
        ts_le(b, c),
    ensures
        ts_le(a, c),
{
}

/// `pow10` is never zero and grows with its exponent.
proof fn lemma_pow10_pos(e: nat)
    ensures
        pow10(e) >= 1,
    decreases e,
{
    if e > 0 {
        lemma_pow10_pos((e - 1) as nat);
    }
}

/// `10^a * 10^b == 10^(a+b)`.
proof fn lemma_pow10_add(a: nat, b: nat)
    ensures
        pow10(a) * pow10(b) == pow10(a + b),
    decreases a,
{
    if a == 0 {
        assert(pow10(0) == 1);
    } else {
        lemma_pow10_add((a - 1) as nat, b);
        assert(pow10(a) * pow10(b) == 10 * (pow10((a - 1) as nat) * pow10(b)))
            by (nonlinear_arith)
            requires
                pow10(a) == 10 * pow10((a - 1) as nat),
        ;
    }
}

/// A digit string's value is below `10^len`.
proof fn lemma_digits_val_bound(s: Seq<char>)
    requires
        all_digits(s),
    ensures
        digits_val(s) < pow10(s.len()),
    decreases s.len(),
{
    if s.len() == 0 {
    } else {
        assert(all_digits(s.drop_last())) by {
            assert(forall|i: int|
                0 <= i < s.len() - 1 ==> s.drop_last()[i] == #[trigger] s[i]);
        }
        lemma_digits_val_bound(s.drop_last());
        assert(digit_val(s.last()) <= 9);
        assert(digits_val(s.drop_last()) * 10 + 9 < pow10(s.len())) by (nonlinear_arith)
            requires
                digits_val(s.drop_last()) < pow10((s.len() - 1) as nat),
                pow10(s.len()) == 10 * pow10((s.len() - 1) as nat),
        ;
    }
}

/// `pow10(19)` and `pow10(38)` as literals, for exec bounds.
proof fn lemma_pow10_values()
    ensures
        pow10(19) == 10_000_000_000_000_000_000,
        pow10(38) == 100_000_000_000_000_000_000_000_000_000_000_000_000,
{
    reveal_with_fuel(pow10, 40);
}

/// The characterization of `first_dot` from a scan that found no earlier dot.
proof fn lemma_first_dot_at(s: Seq<char>, d: int)
    requires
        0 <= d <= s.len(),
        forall|j: int| 0 <= j < d ==> s[j] != '.',
        d < s.len() ==> s[d] == '.',
    ensures
        first_dot(s) == d,
    decreases s.len(),
{
    if s.len() == 0 {
    } else if d == 0 {
    } else {
        lemma_first_dot_at(s.drop_first(), d - 1);
    }
}

/// Finds the first `'.'` of `s`, or returns the length if there is none.
fn find_dot(s: &str, n: usize) -> (d: usize)
    requires
        n == s@.len(),
    ensures
        0 <= d <= n,
        first_dot(s@) == d,
{
    let mut d: usize = 0;
    while d < n && s.get_char(d) != '.'
        invariant
            n == s@.len(),
            0 <= d <= n,
            forall|j: int| 0 <= j < d ==> s@[j] != '.',
        decreases n - d,
    {
        d += 1;
    }
    proof {
        lemma_first_dot_at(s@, d as int);
    }
    d
}

/// Parses the digits of `s` between character positions `from` and `to`.
/// Returns `None` as soon as a non-digit appears.
fn parse_digits(s: &str, from: usize, to: usize) -> (r: Option<u64>)
    requires
        from <= to <= s@.len(),
        to - from <= 19,
    ensures
        match r {
            Some(v) => all_digits(s@.subrange(from as int, to as int)) && v
                == digits_val(s@.subrange(from as int, to as int)),
            None => !all_digits(s@.subrange(from as int, to as int)),
        },
{
    let mut acc: u64 = 0;
    let mut i: usize = from;
    proof {
        assert(s@.subrange(from as int, from as int) =~= Seq::<char>::empty());
    }
    while i < to
        invariant
            from <= i <= to <= s@.len(),
            to - from <= 19,
            all_digits(s@.subrange(from as int, i as int)),
            acc == digits_val(s@.subrange(from as int, i as int)),
        decreases to - i,
    {
        let c = s.get_char(i);
        let u = c as u32;
        if u < 48 || u > 57 {
            proof {
                assert(s@.subrange(from as int, to as int)[i - from] == c);
                assert(!is_digit(c));
            }
            return None;
        }
        proof {
            let pre = s@.subrange(from as int, i as int);
            lemma_digits_val_bound(pre);
            assert(pre.len() <= 18);
            lemma_pow10_le(pre.len(), 18);
            lemma_pow10_values();
            reveal_with_fuel(pow10, 20);
            assert(digits_val(pre) < pow10(18));
        }
        let d = (u - 48) as u64;
        acc = acc * 10 + d;
        proof {
            let pre = s@.subrange(from as int, i as int);
            let ext = s@.subrange(from as int, i + 1);
            assert(ext.drop_last() =~= pre);
            assert(ext.last() == c);
            assert(digit_val(c) == d);
        }
        i += 1;
    }
    Some(acc)
}

/// `pow10` is monotone in the exponent.
proof fn lemma_pow10_le(a: nat, b: nat)
    requires
        a <= b,
    ensures
        pow10(a) <= pow10(b),
    decreases b,
{
    if a < b {
        lemma_pow10_le(a, (b - 1) as nat);
        lemma_pow10_pos((b - 1) as nat);
    }
}

/// Computes `10^e` for `e <= 19`.
fn pow10_u64(e: usize) -> (r: u64)
    requires
        e <= 19,
    ensures
        r == pow10(e as nat),
{
    let mut r: u64 = 1;
    let mut i: usize = 0;
    proof {
        lemma_pow10_values();
    }
    while i < e
        invariant
            0 <= i <= e <= 19,
            r == pow10(i as nat),
            pow10(19) == 10_000_000_000_000_000_000,
        decreases e - i,
    {
        proof {
            lemma_pow10_le((i + 1) as nat, 19);
        }
        r = r * 10;
        i += 1;
    }
    r
}

/// The ordering key of a timestamp string, or `None` when the string is not
/// a plain decimal of at most 19 integer and 19 fractional digits.
pub fn ts_key_of(s: &str) -> (r: Option<u128>)
    ensures
        match r {
            Some(k) => spec_ts_key(s@) == Some(k as nat),
            None => spec_ts_key(s@) is None,
        },
{
    let n = s.unicode_len();
    let d = find_dot(s, n);
    if d == 0 || d > 19 {
        return None;
    }
    if d < n && n - d - 1 > 19 {
        return None;
    }
    let whole = match parse_digits(s, 0, d) {
        Some(v) => v,
        None => {
            return None;
        },
    };
    let frac_len: usize = if d < n {
        n - d - 1
    } else {
        0
    };
    let frac: u64 = if d < n {
        match parse_digits(s, d + 1, n) {
            Some(v) => v,
            None => {
                return None;
            },
        }
    } else {
        0u64
    };
    let scale = pow10_u64(19 - frac_len);
    proof {
        lemma_pow10_values();
        let ip = s@.subrange(0, d as int);
        let fp = if d < n {
            s@.subrange(d + 1, n as int)
        } else {
            Seq::<char>::empty()
        };
        lemma_digits_val_bound(ip);
        lemma_pow10_le(ip.len(), 19);
        lemma_pow10_pos((19 - fp.len()) as nat);
        lemma_digits_val_bound(fp);
        lemma_pow10_add(fp.len(), (19 - fp.len()) as nat);
        assert(digits_val(fp) * pow10((19 - fp.len()) as nat) < pow10(19)) by (nonlinear_arith)
            requires
                digits_val(fp) < pow10(fp.len()),
                pow10(fp.len()) * pow10((19 - fp.len()) as nat) == pow10(19),
                pow10((19 - fp.len()) as nat) >= 1,
        ;
        assert(digits_val(ip) * pow10(19) <= (pow10(19) - 1) * pow10(19)) by (nonlinear_arith)
            requires
                digits_val(ip) < pow10(19),
        ;
    }
    let key: u128 = (whole as u128) * 10_000_000_000_000_000_000u128 + (frac as u128) * (
    scale as u128);
    Some(key)
}

/// Timestamp-string comparison: `a` sorts at or below `b`.
pub fn ts_le_str(a: &str, b: &str) -> (r: bool)
    ensures
        r == ts_le(a@, b@),
{
    let ka = ts_key_of(a);
    let kb = ts_key_of(b);
    match (ka, kb) {
        (Option::None, _) => true,
        (Option::Some(_), Option::None) => false,
        (Option::Some(x), Option::Some(y)) => x <= y,
    }
}

} // verus!
