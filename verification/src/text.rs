//! Decimal text helpers shared by the scalar format adapters: rendering
//! non-negative integers (optionally zero-padded) and parsing signed
//! 64-bit integers from decimal text.

use vstd::prelude::*;
use vstd::string::StrSliceExecFns;
use vstd::string::StringExecFns;

verus! {

/// Why a piece of text failed to parse as a signed 64-bit integer.
#[derive(Clone, Copy, Debug, PartialEq, Eq, Structural)]
pub enum IntError {
    /// The text was empty.
    Empty,
    /// A character other than an optional leading sign and decimal digits.
    InvalidDigit,
    /// The value exceeds the largest representable value.
    PosOverflow,
    /// The value is below the smallest representable value.
    NegOverflow,
}

impl IntError {
    /// A human-readable description of the failure.
    pub fn message(&self) -> (r: &'static str)
        ensures
            r@ == self.message_spec(),
    {
        match self {
            IntError::Empty => "cannot parse integer from empty string",
            IntError::InvalidDigit => "invalid digit found in string",
            IntError::PosOverflow => "number too large to fit in target type",
            IntError::NegOverflow => "number too small to fit in target type",
        }
    }

    pub open spec fn message_spec(&self) -> Seq<char> {
        match self {
            IntError::Empty => "cannot parse integer from empty string"@,
            IntError::InvalidDigit => "invalid digit found in string"@,
            IntError::PosOverflow => "number too large to fit in target type"@,
            IntError::NegOverflow => "number too small to fit in target type"@,
        }
    }
}

/// True for the ASCII decimal digits `'0'` through `'9'`.
pub open spec fn is_digit_char(c: char) -> bool {
    48 <= c as int <= 57
}

/// The numeric value of an ASCII decimal digit.
pub open spec fn digit_to_val(c: char) -> int {
    c as int - 48
}

/// The ASCII decimal digit for a value below ten.
pub open spec fn val_to_digit(v: int) -> char {
    if v == 0 { '0' }
    else if v == 1 { '1' }
    else if v == 2 { '2' }
    else if v == 3 { '3' }
    else if v == 4 { '4' }
    else if v == 5 { '5' }
    else if v == 6 { '6' }
    else if v == 7 { '7' }
    else if v == 8 { '8' }
    else { '9' }
}

/// True when every character of `s` is an ASCII decimal digit.
pub open spec fn all_digits(s: Seq<char>) -> bool {
    forall|i: int| 0 <= i < s.len() ==> is_digit_char(#[trigger] s[i])
}

/// The value denoted by a sequence of decimal digits (most significant first).
pub open spec fn digits_val(s: Seq<char>) -> int
    decreases s.len(),
{
    if s.len() == 0 {
        0
    } else {
        digits_val(s.drop_last()) * 10 + digit_to_val(s.last())
    }
}

/// Ten to the power `n`.
pub open spec fn pow10(n: nat) -> int
    decreases n,
{
    if n == 0 { 1 } else { 10 * pow10((n - 1) as nat) }
}

/// The shortest decimal rendering of a non-negative integer.
pub open spec fn dec_digits(n: nat) -> Seq<char>
    decreases n,
{
    if n < 10 {
        seq![val_to_digit(n as int)]
    } else {
        dec_digits(n / 10) + seq![val_to_digit((n % 10) as int)]
    }
}

/// Decimal rendering zero-padded to at least two characters.
pub open spec fn pad2(n: nat) -> Seq<char> {
    if n < 10 { seq!['0'] + dec_digits(n) } else { dec_digits(n) }
}

/// Decimal rendering zero-padded to at least four characters.
pub open spec fn pad4(n: nat) -> Seq<char> {
    if n < 10 { seq!['0', '0', '0'] + dec_digits(n) }
    else if n < 100 { seq!['0', '0'] + dec_digits(n) }
    else if n < 1000 { seq!['0'] + dec_digits(n) }
    else { dec_digits(n) }
}

/// A digit sequence is bounded by ten to the power of its length.
proof fn lemma_digits_val_bounds(s: Seq<char>)
    requires
        all_digits(s),
    ensures
        0 <= digits_val(s) < pow10(s.len()),
    decreases s.len(),
{
    if s.len() > 0 {
        lemma_digits_val_bounds(s.drop_last());
    }
}

/// A digit sequence whose first digit is not zero reaches ten to the power
/// of its length less one.
proof fn lemma_digits_val_first_nonzero(s: Seq<char>)
    requires
        all_digits(s),
        s.len() >= 1,
        s[0] != '0',
    ensures
        digits_val(s) >= pow10((s.len() - 1) as nat),
    decreases s.len(),
{
    if s.len() == 1 {
        assert(digit_to_val(s[0]) >= 1);
    } else {
        assert(s.drop_last()[0] == s[0]);
        assert(all_digits(s.drop_last())) by {
            assert(forall|i: int|
                0 <= i < s.len() - 1 ==> #[trigger] s.drop_last()[i] == s[i]);
        }
        lemma_digits_val_first_nonzero(s.drop_last());
        assert(pow10((s.len() - 1) as nat) == 10 * pow10((s.len() - 2) as nat));
        assert(digits_val(s.drop_last()) * 10 >= pow10((s.len() - 2) as nat) * 10);
        assert(digits_val(s) == digits_val(s.drop_last()) * 10 + digit_to_val(s.last()));
        assert(digit_to_val(s.last()) >= 0);
    }
}

/// Leading zeros do not change the value of a digit sequence.
proof fn lemma_digits_val_skip_zeros(s: Seq<char>, k: int)
    requires
        all_digits(s),
        0 <= k <= s.len(),
        forall|i: int| 0 <= i < k ==> s[i] == '0',
    ensures
        digits_val(s) == digits_val(s.subrange(k, s.len() as int)),
    decreases s.len(),
{
    if k > 0 && s.len() > 0 {
        assert(all_digits(s.drop_last())) by {
            assert(forall|i: int|
                0 <= i < s.len() - 1 ==> #[trigger] s.drop_last()[i] == s[i]);
        }
        if k == s.len() {
            lemma_digits_val_skip_zeros(s.drop_last(), k - 1);
            assert(s.drop_last().subrange(k - 1, s.len() - 1) =~= Seq::<char>::empty());
            assert(digits_val(s.drop_last()) == 0);
            assert(s[s.len() - 1] == '0');
            assert(digit_to_val(s.last()) == 0);
            assert(s.subrange(k, s.len() as int) =~= Seq::<char>::empty());
        } else {
            lemma_digits_val_skip_zeros(s.drop_last(), k);
            let t = s.subrange(k, s.len() as int);
            assert(t.len() > 0);
            assert(s.drop_last().subrange(k, s.len() - 1) =~= t.drop_last());
            assert(t.last() == s.last());
            assert(digits_val(t) == digits_val(t.drop_last()) * 10 + digit_to_val(t.last()));
            assert(digits_val(s) == digits_val(s.drop_last()) * 10 + digit_to_val(s.last()));
        }
    } else {
        assert(s.subrange(0, s.len() as int) =~= s);
    }
}

/// The decimal rendering of `n` consists of digits and denotes `n`.
pub proof fn lemma_dec_digits_correct(n: nat)
    ensures
        all_digits(dec_digits(n)),
        digits_val(dec_digits(n)) == n,
        dec_digits(n).len() >= 1,
    decreases n,
{
    if n < 10 {
        let s = dec_digits(n);
        assert(s.len() == 1);
        assert(digits_val(s) == digits_val(s.drop_last()) * 10 + digit_to_val(s.last()));
        assert(s.drop_last() =~= Seq::<char>::empty());
    } else {
        lemma_dec_digits_correct(n / 10);
        let p = dec_digits(n / 10);
        let s = dec_digits(n);
        assert(s =~= p + seq![val_to_digit((n % 10) as int)]);
        assert(s.drop_last() =~= p);
        assert(digit_to_val(val_to_digit((n % 10) as int)) == n % 10);
    }
}

/// The two-character padded rendering consists of digits and denotes `n`.
pub proof fn lemma_pad2_correct(n: nat)
    ensures
        all_digits(pad2(n)),
        digits_val(pad2(n)) == n,
        pad2(n).len() >= 2,
{
    lemma_dec_digits_correct(n);
    if n < 10 {
        let s = pad2(n);
        let d = dec_digits(n);
        assert(s =~= seq!['0', val_to_digit(n as int)]);
        assert(s.drop_last() =~= seq!['0']);
        assert(seq!['0'].drop_last() =~= Seq::<char>::empty());
        assert(digits_val(seq!['0']) == digits_val(Seq::<char>::empty()) * 10 + digit_to_val('0'));
        assert(digits_val(seq!['0']) == 0);
        assert(s.last() == val_to_digit(n as int));
        assert(digits_val(s) == digits_val(s.drop_last()) * 10 + digit_to_val(s.last()));
        assert(digit_to_val(val_to_digit(n as int)) == n);
        assert(all_digits(s)) by {
            assert(s[0] == '0' && is_digit_char('0'));
            assert(s[1] == d[0] && is_digit_char(d[0]));
        }
    } else {
        lemma_dec_digits_correct(n / 10);
        assert(dec_digits(n).len() == dec_digits(n / 10).len() + 1);
    }
}

/// The length of the shortest decimal rendering of values below ten
/// thousand.
proof fn lemma_dec_digits_len_small(n: nat)
    requires
        n < 10000,
    ensures
        dec_digits(n).len() == if n < 10 { 1int } else if n < 100 { 2int } else if n < 1000 {
            3int
        } else {
            4int
        },
    decreases n,
{
    if n >= 10 {
        lemma_dec_digits_len_small(n / 10);
    }
}

/// Below one hundred the two-padded rendering is exactly two characters.
pub proof fn lemma_pad2_len2(n: nat)
    requires
        n < 100,
    ensures
        pad2(n).len() == 2,
{
    lemma_dec_digits_len_small(n);
}

/// The four-character padded rendering consists of digits and denotes `n`.
pub proof fn lemma_pad4_correct(n: nat)
    requires
        n <= 9999,
    ensures
        all_digits(pad4(n)),
        digits_val(pad4(n)) == n,
        pad4(n).len() == 4,
{
    lemma_dec_digits_correct(n);
    lemma_dec_digits_len_small(n);
    let s = pad4(n);
    let d = dec_digits(n);
    let zeros = (4 - d.len()) as int;
    assert(all_digits(s)) by {
        assert(forall|i: int| 0 <= i < zeros ==> #[trigger] s[i] == '0');
        assert(forall|i: int| zeros <= i < 4 ==> #[trigger] s[i] == d[i - zeros]);
    }
    lemma_digits_val_skip_zeros(s, zeros);
    assert(s.subrange(zeros, 4) =~= d);
}

/// The value of a two-digit sequence, written positionally.
pub proof fn lemma_digits_val2(s: Seq<char>)
    requires
        s.len() == 2,
    ensures
        digits_val(s) == digit_to_val(s[0]) * 10 + digit_to_val(s[1]),
{
    let s1 = s.drop_last();
    assert(s1 =~= seq![s[0]]);
    assert(s1.drop_last() =~= Seq::<char>::empty());
    assert(digits_val(s1.drop_last()) == 0);
    assert(digits_val(s1) == digits_val(s1.drop_last()) * 10 + digit_to_val(s1.last()));
    assert(s1.last() == s[0]);
    assert(digits_val(s) == digits_val(s1) * 10 + digit_to_val(s.last()));
    assert(s.last() == s[1]);
}

/// The value of a four-digit sequence, written positionally.
pub proof fn lemma_digits_val4(s: Seq<char>)
    requires
        s.len() == 4,
    ensures
        digits_val(s) == ((digit_to_val(s[0]) * 10 + digit_to_val(s[1])) * 10 + digit_to_val(
            s[2],
        )) * 10 + digit_to_val(s[3]),
{
    let s3 = s.drop_last();
    let s2 = s3.drop_last();
    assert(s2.len() == 2);
    lemma_digits_val2(s2);
    assert(s2[0] == s[0] && s2[1] == s[1]);
    assert(s3.last() == s[2] && s.last() == s[3]);
    assert(digits_val(s3) == digits_val(s2) * 10 + digit_to_val(s3.last()));
    assert(digits_val(s) == digits_val(s3) * 10 + digit_to_val(s.last()));
}

/// The single-character text of a decimal digit value.
pub fn digit_str(v: u64) -> (r: &'static str)
    requires
        v < 10,
    ensures
        r@ == seq![val_to_digit(v as int)],
{
    proof {
        reveal_strlit("0");
        reveal_strlit("1");
        reveal_strlit("2");
        reveal_strlit("3");
        reveal_strlit("4");
        reveal_strlit("5");
        reveal_strlit("6");
        reveal_strlit("7");
        reveal_strlit("8");
        reveal_strlit("9");
    }
    let r: &'static str = if v == 0 { "0" }
    else if v == 1 { "1" }
    else if v == 2 { "2" }
    else if v == 3 { "3" }
    else if v == 4 { "4" }
    else if v == 5 { "5" }
    else if v == 6 { "6" }
    else if v == 7 { "7" }
    else { "9" };
    let r: &'static str = if v == 8 { "8" } else { r };
    assert(r@ =~= seq![val_to_digit(v as int)]);
    r
}

/// Renders a non-negative integer in decimal with no padding.
pub fn fmt_u64(n: u64) -> (r: String)
    ensures
        r@ == dec_digits(n as nat),
    decreases n,
{
    if n < 10 {
        digit_str(n).to_owned()
    } else {
        let mut s = fmt_u64(n / 10);
        s.append(digit_str(n % 10));
        assert(s@ =~= dec_digits(n as nat));
        s
    }
}

/// Renders a non-negative integer in decimal, zero-padded to two characters.
pub fn pad2_u64(n: u64) -> (r: String)
    ensures
        r@ == pad2(n as nat),
{
    if n < 10 {
        proof {
            reveal_strlit("0");
        }
        let mut s = String::from_str("0");
        s.append(digit_str(n));
        assert(s@ =~= pad2(n as nat));
        s
    } else {
        fmt_u64(n)
    }
}

/// Renders a non-negative integer in decimal, zero-padded to four characters.
pub fn pad4_u64(n: u64) -> (r: String)
    ensures
        r@ == pad4(n as nat),
{
    proof {
        reveal_strlit("");
        reveal_strlit("0");
        reveal_strlit("00");
        reveal_strlit("000");
    }
    let prefix: &'static str = if n < 10 { "000" }
    else if n < 100 { "00" }
    else if n < 1000 { "0" }
    else { "" };
    let mut s = String::from_str(prefix);
    let digits = fmt_u64(n);
    s.append(digits.as_str());
    assert(s@ =~= pad4(n as nat));
    s
}

/// Compares two pieces of text character by character.
#[verifier::loop_isolation(false)]
pub fn str_eq(a: &str, b: &str) -> (r: bool)
    ensures
        r == (a@ == b@),
{
    let n = a.unicode_len();
    if n != b.unicode_len() {
        return false;
    }
    let mut i: usize = 0;
    while i < n
        invariant
            i <= n,
            n == a@.len() == b@.len(),
            forall|j: int| 0 <= j < i ==> a@[j] == b@[j],
        decreases n - i,
    {
        if a.get_char(i) != b.get_char(i) {
            return false;
        }
        i += 1;
    }
    proof {
        assert(a@ =~= b@);
    }
    true
}

/// The result of reading decimal text (an optional sign followed by digits)
/// as a signed 64-bit integer.
pub open spec fn parse_i64_spec(s: Seq<char>) -> Result<i64, IntError> {
    if s.len() == 0 {
        Err(IntError::Empty)
    } else {
        let body = if s[0] == '-' || s[0] == '+' {
            s.subrange(1, s.len() as int)
        } else {
            s
        };
        if body.len() == 0 || !all_digits(body) {
            Err(IntError::InvalidDigit)
        } else {
            let v = if s[0] == '-' { -digits_val(body) } else { digits_val(body) };
            if v > i64::MAX {
                Err(IntError::PosOverflow)
            } else if v < i64::MIN {
                Err(IntError::NegOverflow)
            } else {
                Ok(v as i64)
            }
        }
    }
}

proof fn lemma_pow10_value_19()
    ensures
        pow10(19) == 10_000_000_000_000_000_000,
{
    reveal_with_fuel(pow10, 21);
}

proof fn lemma_pow10_monotonic(a: nat, b: nat)
    requires
        a <= b,
    ensures
        pow10(a) <= pow10(b),
        pow10(a) >= 1,
    decreases b,
{
    if a < b {
        lemma_pow10_monotonic(a, (b - 1) as nat);
    } else if b > 0 {
        lemma_pow10_monotonic((a - 1) as nat, (b - 1) as nat);
    }
}

/// Reads decimal text as a signed 64-bit integer: an optional `+` or `-`
/// sign followed by one or more ASCII digits, rejecting anything else and
/// values that do not fit.
#[verifier::loop_isolation(false)]
pub fn parse_i64(s: &str) -> (r: Result<i64, IntError>)
    ensures
        r == parse_i64_spec(s@),
{
    let n = s.unicode_len();
    if n == 0 {
        return Err(IntError::Empty);
    }
    let c0 = s.get_char(0);
    let neg = c0 == '-';
    let start: usize = if c0 == '-' || c0 == '+' { 1 } else { 0 };
    let ghost body: Seq<char> = if c0 == '-' || c0 == '+' {
        s@.subrange(1, s@.len() as int)
    } else {
        s@
    };
    if n == start {
        return Err(IntError::InvalidDigit);
    }
    let mut i = start;
    while i < n
        invariant
            start <= i <= n,
            forall|j: int| start <= j < i ==> is_digit_char(#[trigger] s@[j]),
        decreases n - i,
    {
        let c = s.get_char(i);
        let u = c as u32;
        if u < 48 || u > 57 {
            proof {
                assert(body[i - start] == s@[i as int]);
                assert(!is_digit_char(body[i - start]));
            }
            return Err(IntError::InvalidDigit);
        }
        i += 1;
    }
    proof {
        assert(all_digits(body)) by {
            assert(forall|j: int|
                0 <= j < body.len() ==> #[trigger] body[j] == s@[j + start]);
        }
    }
    // Skip leading zeros so that the magnitude's digit count is meaningful.
    let mut j = start;
    let mut stopped = false;
    while !stopped && j < n
        invariant
            start <= j <= n,
            forall|t: int| start <= t < j ==> #[trigger] s@[t] == '0',
            stopped ==> j < n && s@[j as int] != '0',
        decreases n - j, (if stopped { 0int } else { 1int }),
    {
        if s.get_char(j) == '0' {
            j += 1;
        } else {
            stopped = true;
        }
    }
    assert(j == n || s@[j as int] != '0');
    proof {
        assert(body.subrange(j - start, body.len() as int) =~= s@.subrange(
            j as int,
            n as int,
        ));
        lemma_digits_val_skip_zeros(body, j - start);
    }
    if n - j > 19 {
        proof {
            let m = s@.subrange(j as int, n as int);
            lemma_digits_val_first_nonzero(m);
            lemma_pow10_monotonic(19, (m.len() - 1) as nat);
            lemma_pow10_value_19();
        }
        return if neg {
            Err(IntError::NegOverflow)
        } else {
            Err(IntError::PosOverflow)
        };
    }
    let mut acc: i128 = 0;
    let mut t = j;
    while t < n
        invariant
            j <= t <= n,
            acc == digits_val(s@.subrange(j as int, t as int)),
            0 <= acc < pow10((t - j) as nat),
        decreases n - t,
    {
        let c = s.get_char(t);
        let d: i128 = (c as u32 - 48) as i128;
        proof {
            lemma_pow10_monotonic((t - j + 1) as nat, 19);
            lemma_pow10_value_19();
            assert(s@.subrange(j as int, t + 1).drop_last() =~= s@.subrange(
                j as int,
                t as int,
            ));
            assert(s@.subrange(j as int, t + 1).last() == s@[t as int]);
        }
        acc = acc * 10 + d;
        t += 1;
    }
    proof {
        lemma_pow10_value_19();
        lemma_pow10_monotonic((n - j) as nat, 19);
        assert(acc == digits_val(body));
    }
    if neg {
        if acc > 9_223_372_036_854_775_808i128 {
            Err(IntError::NegOverflow)
        } else {
            Ok((-acc) as i64)
        }
    } else {
        if acc > 9_223_372_036_854_775_807i128 {
            Err(IntError::PosOverflow)
        } else {
            Ok(acc as i64)
        }
    }
}

} // verus!
