//! Clock-duration adapter: the textual pattern `HH:MM:SS`.
//!
//! Decoding is liberal: the three components are signed integers that need
//! not lie in canonical clock ranges, and the result is the algebraic total
//! `hours * 3600 + minutes * 60 + seconds` in seconds.  Encoding is a
//! canonicalizing formatter: it splits a non-negative total into
//! hours/minutes/seconds with minutes and seconds below sixty, each
//! zero-padded to at least two digits.

use vstd::prelude::*;
use vstd::string::StrSliceExecFns;
use vstd::string::StringExecFns;
use vstd::arithmetic::div_mod::lemma_fundamental_div_mod;
use vstd::arithmetic::div_mod::lemma_mod_mod;

use crate::text::IntError;
use crate::text::all_digits;
use crate::text::digits_val;
use crate::text::is_digit_char;
use crate::text::lemma_pad2_correct;
use crate::text::pad2;
use crate::text::pad2_u64;
use crate::text::parse_i64;
use crate::text::parse_i64_spec;

verus! {

/// Why a piece of text failed to decode as a clock duration.
#[derive(Clone, Copy, Debug, PartialEq, Eq, Structural)]
pub enum DurationError {
    /// The text did not consist of exactly three `:`-separated parts.
    ExpectedThreeParts,
    /// The hours part is not a well-formed signed integer.
    Hours(IntError),
    /// The minutes part is not a well-formed signed integer.
    Minutes(IntError),
    /// The seconds part is not a well-formed signed integer.
    Seconds(IntError),
    /// The parts are well-formed but their total does not fit in 64 bits.
    TotalOutOfRange,
}

impl DurationError {
    pub open spec fn message_spec(&self) -> Seq<char> {
        match self {
            DurationError::ExpectedThreeParts => "Invalid time format, expected HH:MM:SS"@,
            DurationError::Hours(e) => "Failed to parse hours: "@ + e.message_spec(),
            DurationError::Minutes(e) => "Failed to parse minutes: "@ + e.message_spec(),
            DurationError::Seconds(e) => "Failed to parse seconds: "@ + e.message_spec(),
            DurationError::TotalOutOfRange => "Duration total out of range"@,
        }
    }

    /// A human-readable description of the failure.
    pub fn message(&self) -> (r: String)
        ensures
            r@ == self.message_spec(),
    {
        match self {
            DurationError::ExpectedThreeParts => {
                String::from_str("Invalid time format, expected HH:MM:SS")
            },
            DurationError::Hours(e) => {
                let mut s = String::from_str("Failed to parse hours: ");
                s.append(e.message());
                s
            },
            DurationError::Minutes(e) => {
                let mut s = String::from_str("Failed to parse minutes: ");
                s.append(e.message());
                s
            },
            DurationError::Seconds(e) => {
                let mut s = String::from_str("Failed to parse seconds: ");
                s.append(e.message());
                s
            },
            DurationError::TotalOutOfRange => {
                String::from_str("Duration total out of range")
            },
        }
    }
}

/// The first index at or after `from` holding a colon, or the length of `s`.
pub open spec fn find_colon(s: Seq<char>, from: int) -> int
    decreases s.len() - from,
{
    if from < 0 || from >= s.len() {
        s.len() as int
    } else if s[from] == ':' {
        from
    } else {
        find_colon(s, from + 1)
    }
}

/// The total in seconds denoted by duration text, or the reason it is
/// rejected.  The text must consist of exactly three `:`-separated parts,
/// each a signed decimal integer; the total is their algebraic sum in
/// seconds.
pub open spec fn parse_duration_spec(s: Seq<char>) -> Result<i64, DurationError> {
    let a = find_colon(s, 0);
    let b = find_colon(s, a + 1);
    let c = find_colon(s, b + 1);
    if a == s.len() || b == s.len() || c != s.len() {
        Err(DurationError::ExpectedThreeParts)
    } else {
        match parse_i64_spec(s.subrange(0, a)) {
            Err(e) => Err(DurationError::Hours(e)),
            Ok(h) => match parse_i64_spec(s.subrange(a + 1, b)) {
                Err(e) => Err(DurationError::Minutes(e)),
                Ok(m) => match parse_i64_spec(s.subrange(b + 1, s.len() as int)) {
                    Err(e) => Err(DurationError::Seconds(e)),
                    Ok(sec) => {
                        let total = h * 3600 + m * 60 + sec;
                        if total < i64::MIN || total > i64::MAX {
                            Err(DurationError::TotalOutOfRange)
                        } else {
                            Ok(total as i64)
                        }
                    },
                },
            },
        }
    }
}

/// The canonical `HH:MM:SS` rendering of a non-negative total in seconds.
pub open spec fn duration_text(total: int) -> Seq<char>
    recommends
        total >= 0,
{
    pad2((total / 3600) as nat) + seq![':'] + pad2((total % 3600 / 60) as nat) + seq![':']
        + pad2((total % 60) as nat)
}

#[verifier::loop_isolation(false)]
fn find_colon_from(s: &str, from: usize) -> (r: usize)
    requires
        from <= s@.len(),
    ensures
        r == find_colon(s@, from as int),
        from <= r <= s@.len(),
{
    let n = s.unicode_len();
    let mut i = from;
    while i < n
        invariant
            from <= i <= n,
            find_colon(s@, from as int) == find_colon(s@, i as int),
        decreases n - i,
    {
        if s.get_char(i) == ':' {
            return i;
        }
        i += 1;
    }
    i
}

/// Reads `HH:MM:SS` text into a total in seconds: exactly three
/// `:`-separated parts, each parsed as a signed integer, summed as
/// `hours * 3600 + minutes * 60 + seconds`.
pub fn parse_duration_from_time_string(time_str: &str) -> (r: Result<i64, DurationError>)
    ensures
        r == parse_duration_spec(time_str@),
{
    let n = time_str.unicode_len();
    let a = find_colon_from(time_str, 0);
    if a == n {
        return Err(DurationError::ExpectedThreeParts);
    }
    let b = find_colon_from(time_str, a + 1);
    if b == n {
        return Err(DurationError::ExpectedThreeParts);
    }
    let c = find_colon_from(time_str, b + 1);
    if c != n {
        return Err(DurationError::ExpectedThreeParts);
    }
    let hp = time_str.substring_char(0, a);
    let mp = time_str.substring_char(a + 1, b);
    let sp = time_str.substring_char(b + 1, n);
    let h = match parse_i64(hp) {
        Ok(v) => v,
        Err(e) => {
            return Err(DurationError::Hours(e));
        },
    };
    let m = match parse_i64(mp) {
        Ok(v) => v,
        Err(e) => {
            return Err(DurationError::Minutes(e));
        },
    };
    let sec = match parse_i64(sp) {
        Ok(v) => v,
        Err(e) => {
            return Err(DurationError::Seconds(e));
        },
    };
    let total: i128 = h as i128 * 3600 + m as i128 * 60 + sec as i128;
    if total < i64::MIN as i128 || total > i64::MAX as i128 {
        Err(DurationError::TotalOutOfRange)
    } else {
        Ok(total as i64)
    }
}

/// Renders a non-negative total in seconds as canonical `HH:MM:SS` text:
/// minutes and seconds below sixty, every component zero-padded to at least
/// two digits, hours unbounded.
pub fn format_duration_as_time_string(duration: &i64) -> (r: String)
    requires
        *duration >= 0,
    ensures
        r@ == duration_text(*duration as int),
{
    proof {
        reveal_strlit(":");
    }
    let total = *duration as u64;
    let mut s = pad2_u64(total / 3600);
    s.append(":");
    let minutes = pad2_u64(total % 3600 / 60);
    s.append(minutes.as_str());
    s.append(":");
    let seconds = pad2_u64(total % 60);
    s.append(seconds.as_str());
    assert(s@ =~= duration_text(*duration as int));
    s
}

/// Encodes a duration given as a non-negative total in seconds as its
/// canonical `HH:MM:SS` text.
pub fn serialize(value: &i64) -> (r: String)
    requires
        *value >= 0,
    ensures
        r@ == duration_text(*value as int),
{
    format_duration_as_time_string(value)
}

/// Decodes `HH:MM:SS` text into a total in seconds.
pub fn deserialize(s: &str) -> (r: Result<i64, DurationError>)
    ensures
        r == parse_duration_spec(s@),
{
    parse_duration_from_time_string(s)
}

proof fn lemma_find_colon_at(s: Seq<char>, from: int, k: int)
    requires
        0 <= from <= k < s.len(),
        s[k] == ':',
        forall|i: int| from <= i < k ==> s[i] != ':',
    ensures
        find_colon(s, from) == k,
    decreases k - from,
{
    if from < k {
        lemma_find_colon_at(s, from + 1, k);
    }
}

proof fn lemma_find_colon_none(s: Seq<char>, from: int)
    requires
        0 <= from,
        forall|i: int| from <= i < s.len() ==> s[i] != ':',
    ensures
        find_colon(s, from) == s.len(),
    decreases s.len() - from,
{
    if from < s.len() {
        lemma_find_colon_none(s, from + 1);
    }
}

/// Law: decoding the canonical rendering of a non-negative duration total
/// yields that same total.  Rendering normalizes (minutes and seconds are
/// reduced below sixty), and decoding the normalized text recovers the
/// original number of seconds.
pub proof fn lemma_duration_round_trip(d: i64)
    requires
        d >= 0,
    ensures
        parse_duration_spec(duration_text(d as int)) == Ok::<i64, DurationError>(d),
{
    let t = duration_text(d as int);
    let h = (d as int / 3600) as nat;
    let m = (d as int % 3600 / 60) as nat;
    let sec = (d as int % 60) as nat;
    lemma_pad2_correct(h);
    lemma_pad2_correct(m);
    lemma_pad2_correct(sec);
    let hp = pad2(h);
    let mp = pad2(m);
    let sp = pad2(sec);
    let a = hp.len() as int;
    let b = a + 1 + mp.len() as int;
    assert(t.len() == hp.len() + 1 + mp.len() + 1 + sp.len());
    assert(t[a] == ':');
    assert(t[b] == ':');
    assert forall|i: int| 0 <= i < t.len() && i != a && i != b implies t[i] != ':' by {
        if i < a {
            assert(t[i] == hp[i]);
            assert(is_digit_char(hp[i]));
        } else if i < b {
            assert(t[i] == mp[i - a - 1]);
            assert(is_digit_char(mp[i - a - 1]));
        } else {
            assert(t[i] == sp[i - b - 1]);
            assert(is_digit_char(sp[i - b - 1]));
        }
    }
    lemma_find_colon_at(t, 0, a);
    lemma_find_colon_at(t, a + 1, b);
    lemma_find_colon_none(t, b + 1);
    assert(find_colon(t, 0) == a);
    assert(find_colon(t, a + 1) == b);
    assert(find_colon(t, b + 1) == t.len());
    assert(t.subrange(0, a) =~= hp);
    assert(t.subrange(a + 1, b) =~= mp);
    assert(t.subrange(b + 1, t.len() as int) =~= sp);
    lemma_parse_digits(hp, h);
    lemma_parse_digits(mp, m);
    lemma_parse_digits(sp, sec);
    assert(h <= i64::MAX) by {
        lemma_fundamental_div_mod(d as int, 3600);
        assert(0 <= d as int % 3600 < 3600);
    }
    assert(m <= i64::MAX && sec <= i64::MAX);
    assert(parse_i64_spec(hp) == Ok::<i64, IntError>(h as i64));
    assert(parse_i64_spec(mp) == Ok::<i64, IntError>(m as i64));
    assert(parse_i64_spec(sp) == Ok::<i64, IntError>(sec as i64));
    assert(h * 3600 + m * 60 + sec == d) by {
        lemma_fundamental_div_mod(d as int, 3600);
        lemma_fundamental_div_mod(d as int % 3600, 60);
        lemma_mod_mod(d as int, 60, 60);
        assert(0 <= d as int % 3600 < 3600);
        assert(0 <= d as int % 3600 % 60 < 60);
        assert(d as int % 3600 % 60 == d as int % 60);
    }
}

/// Decimal digit text with no sign parses to its digits' value when that
/// value fits.
proof fn lemma_parse_digits(s: Seq<char>, v: nat)
    requires
        all_digits(s),
        s.len() >= 1,
        digits_val(s) == v,
        v <= i64::MAX,
    ensures
        parse_i64_spec(s) == Ok::<i64, IntError>(v as i64),
{
    assert(is_digit_char(s[0]));
    assert(s[0] != '-' && s[0] != '+');
}

} // verus!
