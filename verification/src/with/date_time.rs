//! Civil timestamp adapter: the fixed pattern `YYYY-MM-DD HH:MM:SS`
//! (24-hour clock, zero-padded, no timezone), with strict calendar
//! validity on decode.

use vstd::prelude::*;
use vstd::string::StrSliceExecFns;
use vstd::string::StringExecFns;

use crate::text::digit_to_val;
use crate::text::is_digit_char;
use crate::text::lemma_digits_val2;
use crate::text::lemma_digits_val4;
use crate::text::lemma_pad2_correct;
use crate::text::lemma_pad2_len2;
use crate::text::lemma_pad4_correct;
use crate::text::pad2;
use crate::text::pad2_u64;
use crate::text::pad4;
use crate::text::pad4_u64;

verus! {

/// A civil (timezone-free) date and time with whole-second resolution.
///
/// A value is meaningful only when [`Timestamp::wf`] holds: the year is at
/// most four digits, the month, day, hour, minute and second lie in their
/// calendar ranges, and the day respects the month's length (with leap
/// years).
#[derive(Clone, Copy, Debug, PartialEq, Eq, Structural)]
pub struct Timestamp {
    pub year: u16,
    pub month: u8,
    pub day: u8,
    pub hour: u8,
    pub minute: u8,
    pub second: u8,
}

/// Why a piece of text failed to decode as a civil timestamp.
#[derive(Clone, Copy, Debug, PartialEq, Eq, Structural)]
pub enum TimestampError {
    /// The text does not match the `YYYY-MM-DD HH:MM:SS` pattern.
    Pattern,
    /// The pattern matches but the components are not a valid calendar
    /// date and time of day.
    InvalidDateTime,
}

impl TimestampError {
    /// A human-readable description of the failure.
    pub fn message(&self) -> (r: &'static str)
        ensures
            r@ == self.message_spec(),
    {
        match self {
            TimestampError::Pattern => "expected YYYY-MM-DD HH:MM:SS",
            TimestampError::InvalidDateTime => "invalid calendar date or time of day",
        }
    }

    pub open spec fn message_spec(&self) -> Seq<char> {
        match self {
            TimestampError::Pattern => "expected YYYY-MM-DD HH:MM:SS"@,
            TimestampError::InvalidDateTime => "invalid calendar date or time of day"@,
        }
    }
}

/// True for years with a February 29th.
pub open spec fn is_leap_year(y: int) -> bool {
    y % 4 == 0 && (y % 100 != 0 || y % 400 == 0)
}

/// The number of days of a month, leap years respected.
pub open spec fn days_in_month(y: int, m: int) -> int
    recommends
        1 <= m <= 12,
{
    if m == 2 {
        if is_leap_year(y) {
            29
        } else {
            28
        }
    } else if m == 4 || m == 6 || m == 9 || m == 11 {
        30
    } else {
        31
    }
}

impl Timestamp {
    /// The components form a valid calendar date and time of day with a
    /// four-digit year.
    pub open spec fn wf(&self) -> bool {
        &&& self.year <= 9999
        &&& 1 <= self.month <= 12
        &&& 1 <= self.day <= days_in_month(self.year as int, self.month as int)
        &&& self.hour <= 23
        &&& self.minute <= 59
        &&& self.second <= 59
    }
}

impl Timestamp {
    /// Decides [`Timestamp::wf`].
    pub fn check_wf(&self) -> (r: bool)
        ensures
            r == self.wf(),
    {
        self.year <= 9999 && 1 <= self.month && self.month <= 12 && 1 <= self.day && self.day
            <= days_in_month_of(self.year, self.month) && self.hour <= 23 && self.minute <= 59
            && self.second <= 59
    }
}

/// The `YYYY-MM-DD HH:MM:SS` rendering of a timestamp.
pub open spec fn timestamp_text(t: Timestamp) -> Seq<char> {
    pad4(t.year as nat) + seq!['-'] + pad2(t.month as nat) + seq!['-'] + pad2(t.day as nat)
        + seq![' '] + pad2(t.hour as nat) + seq![':'] + pad2(t.minute as nat) + seq![':'] + pad2(
        t.second as nat,
    )
}

/// The text has the exact shape `YYYY-MM-DD HH:MM:SS`: nineteen characters,
/// digits and the fixed separators in their fixed places.
pub open spec fn timestamp_shape(s: Seq<char>) -> bool {
    &&& s.len() == 19
    &&& is_digit_char(s[0]) && is_digit_char(s[1]) && is_digit_char(s[2]) && is_digit_char(s[3])
    &&& s[4] == '-'
    &&& is_digit_char(s[5]) && is_digit_char(s[6])
    &&& s[7] == '-'
    &&& is_digit_char(s[8]) && is_digit_char(s[9])
    &&& s[10] == ' '
    &&& is_digit_char(s[11]) && is_digit_char(s[12])
    &&& s[13] == ':'
    &&& is_digit_char(s[14]) && is_digit_char(s[15])
    &&& s[16] == ':'
    &&& is_digit_char(s[17]) && is_digit_char(s[18])
}

/// The value of the two digits at position `i`.
pub open spec fn num2(s: Seq<char>, i: int) -> int {
    digit_to_val(s[i]) * 10 + digit_to_val(s[i + 1])
}

/// The value of the four digits at position `i`.
pub open spec fn num4(s: Seq<char>, i: int) -> int {
    ((digit_to_val(s[i]) * 10 + digit_to_val(s[i + 1])) * 10 + digit_to_val(s[i + 2])) * 10
        + digit_to_val(s[i + 3])
}

/// The timestamp denoted by `YYYY-MM-DD HH:MM:SS` text, or the reason it
/// is rejected.
pub open spec fn parse_timestamp_spec(s: Seq<char>) -> Result<Timestamp, TimestampError> {
    if !timestamp_shape(s) {
        Err(TimestampError::Pattern)
    } else {
        let t = Timestamp {
            year: num4(s, 0) as u16,
            month: num2(s, 5) as u8,
            day: num2(s, 8) as u8,
            hour: num2(s, 11) as u8,
            minute: num2(s, 14) as u8,
            second: num2(s, 17) as u8,
        };
        if t.wf() {
            Ok(t)
        } else {
            Err(TimestampError::InvalidDateTime)
        }
    }
}

/// The number of days of a month, leap years respected.
pub fn days_in_month_of(year: u16, month: u8) -> (r: u8)
    requires
        1 <= month <= 12,
    ensures
        r == days_in_month(year as int, month as int),
{
    if month == 2 {
        let leap = year % 4 == 0 && (year % 100 != 0 || year % 400 == 0);
        if leap {
            29
        } else {
            28
        }
    } else if month == 4 || month == 6 || month == 9 || month == 11 {
        30
    } else {
        31
    }
}

/// Encodes a timestamp as `YYYY-MM-DD HH:MM:SS`, each component
/// zero-padded to its fixed width.
pub fn serialize(t: &Timestamp) -> (r: String)
    requires
        t.wf(),
    ensures
        r@ == timestamp_text(*t),
{
    proof {
        reveal_strlit("-");
        reveal_strlit(" ");
        reveal_strlit(":");
    }
    let mut s = pad4_u64(t.year as u64);
    s.append("-");
    let part = pad2_u64(t.month as u64);
    s.append(part.as_str());
    s.append("-");
    let part = pad2_u64(t.day as u64);
    s.append(part.as_str());
    s.append(" ");
    let part = pad2_u64(t.hour as u64);
    s.append(part.as_str());
    s.append(":");
    let part = pad2_u64(t.minute as u64);
    s.append(part.as_str());
    s.append(":");
    let part = pad2_u64(t.second as u64);
    s.append(part.as_str());
    assert(s@ =~= timestamp_text(*t));
    s
}

/// The digit value at position `i`, or `None` if the character there is
/// not an ASCII digit.
fn digit_at(s: &str, i: usize) -> (r: Option<u8>)
    requires
        i < s@.len(),
    ensures
        match r {
            Some(v) => is_digit_char(s@[i as int]) && v == digit_to_val(s@[i as int]),
            None => !is_digit_char(s@[i as int]),
        },
{
    let c = s.get_char(i);
    let u = c as u32;
    if 48 <= u && u <= 57 {
        Some((u - 48) as u8)
    } else {
        None
    }
}

/// Decodes `YYYY-MM-DD HH:MM:SS` text into a timestamp, rejecting text
/// that does not match the pattern and component values that are not a
/// valid calendar date and time of day.
pub fn deserialize(s: &str) -> (r: Result<Timestamp, TimestampError>)
    ensures
        r == parse_timestamp_spec(s@),
{
    let n = s.unicode_len();
    if n != 19 {
        return Err(TimestampError::Pattern);
    }
    if s.get_char(4) != '-' || s.get_char(7) != '-' || s.get_char(10) != ' ' || s.get_char(13)
        != ':' || s.get_char(16) != ':' {
        return Err(TimestampError::Pattern);
    }
    let mut digits: [u8; 19] = [0; 19];
    let mut i: usize = 0;
    while i < 19
        invariant
            i <= 19,
            s@.len() == 19,
            forall|j: int|
                0 <= j < i && j != 4 && j != 7 && j != 10 && j != 13 && j != 16
                    ==> is_digit_char(#[trigger] s@[j]) && digits@[j] == digit_to_val(s@[j]),
        decreases 19 - i,
    {
        if i != 4 && i != 7 && i != 10 && i != 13 && i != 16 {
            match digit_at(s, i) {
                Some(v) => {
                    digits[i] = v;
                },
                None => {
                    return Err(TimestampError::Pattern);
                },
            }
        }
        i += 1;
    }
    assert(timestamp_shape(s@));
    let year: u16 = ((digits[0] as u16 * 10 + digits[1] as u16) * 10 + digits[2] as u16) * 10
        + digits[3] as u16;
    let month: u8 = digits[5] * 10 + digits[6];
    let day: u8 = digits[8] * 10 + digits[9];
    let hour: u8 = digits[11] * 10 + digits[12];
    let minute: u8 = digits[14] * 10 + digits[15];
    let second: u8 = digits[17] * 10 + digits[18];
    let t = Timestamp { year, month, day, hour, minute, second };
    let valid = 1 <= month && month <= 12 && 1 <= day && day <= days_in_month_of(year, month)
        && hour <= 23 && minute <= 59 && second <= 59;
    if valid {
        Ok(t)
    } else {
        Err(TimestampError::InvalidDateTime)
    }
}

/// Law: decoding the rendering of a valid timestamp yields that same
/// timestamp, component for component.
pub proof fn lemma_timestamp_round_trip(t: Timestamp)
    requires
        t.wf(),
    ensures
        parse_timestamp_spec(timestamp_text(t)) == Ok::<Timestamp, TimestampError>(t),
{
    let s = timestamp_text(t);
    lemma_pad4_correct(t.year as nat);
    lemma_pad2_correct(t.month as nat);
    lemma_pad2_len2(t.month as nat);
    lemma_pad2_correct(t.day as nat);
    lemma_pad2_len2(t.day as nat);
    lemma_pad2_correct(t.hour as nat);
    lemma_pad2_len2(t.hour as nat);
    lemma_pad2_correct(t.minute as nat);
    lemma_pad2_len2(t.minute as nat);
    lemma_pad2_correct(t.second as nat);
    lemma_pad2_len2(t.second as nat);
    let yp = pad4(t.year as nat);
    let mop = pad2(t.month as nat);
    let dp = pad2(t.day as nat);
    let hp = pad2(t.hour as nat);
    let mip = pad2(t.minute as nat);
    let sp = pad2(t.second as nat);
    assert(s.len() == 19);
    assert(s.subrange(0, 4) =~= yp);
    assert(s.subrange(5, 7) =~= mop);
    assert(s.subrange(8, 10) =~= dp);
    assert(s.subrange(11, 13) =~= hp);
    assert(s.subrange(14, 16) =~= mip);
    assert(s.subrange(17, 19) =~= sp);
    assert(s[4] == '-' && s[7] == '-' && s[10] == ' ' && s[13] == ':' && s[16] == ':');
    lemma_digits_val4(s.subrange(0, 4));
    lemma_digits_val2(s.subrange(5, 7));
    lemma_digits_val2(s.subrange(8, 10));
    lemma_digits_val2(s.subrange(11, 13));
    lemma_digits_val2(s.subrange(14, 16));
    lemma_digits_val2(s.subrange(17, 19));
    assert(timestamp_shape(s));
    assert(num4(s, 0) == t.year);
    assert(num2(s, 5) == t.month);
    assert(num2(s, 8) == t.day);
    assert(num2(s, 11) == t.hour);
    assert(num2(s, 14) == t.minute);
    assert(num2(s, 17) == t.second);
}

} // verus!
