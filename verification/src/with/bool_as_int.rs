//! Boolean-as-digit adapter: `true` is rendered as `"1"` and `false` as
//! `"0"`, and only those two texts decode successfully.

use vstd::prelude::*;
use vstd::string::StrSliceExecFns;
use vstd::string::StringExecFns;

verus! {

/// The decoded text was neither `"1"` nor `"0"`; carries the offending text.
#[derive(Debug, PartialEq, Eq)]
pub struct InvalidBooleanDigit {
    pub text: String,
}

impl InvalidBooleanDigit {
    /// A human-readable description of the failure.
    pub fn message(&self) -> (r: String)
        ensures
            r@ == "Invalid boolean value: "@ + self.text@,
    {
        let mut s = String::from_str("Invalid boolean value: ");
        s.append(self.text.as_str());
        s
    }
}

/// The single-digit rendering of a boolean.
pub open spec fn bool_text(b: bool) -> Seq<char> {
    if b {
        "1"@
    } else {
        "0"@
    }
}

/// The boolean denoted by a single decimal digit text, if any.
pub open spec fn parse_bool_spec(s: Seq<char>) -> Option<bool> {
    if s == "1"@ {
        Some(true)
    } else if s == "0"@ {
        Some(false)
    } else {
        None
    }
}

/// Encodes a boolean as `"1"` or `"0"`.
pub fn serialize(b: &bool) -> (r: &'static str)
    ensures
        r@ == bool_text(*b),
{
    if *b {
        "1"
    } else {
        "0"
    }
}

/// Decodes `"1"` as `true` and `"0"` as `false`; any other text fails.
pub fn deserialize(s: &str) -> (r: Result<bool, InvalidBooleanDigit>)
    ensures
        match r {
            Ok(b) => parse_bool_spec(s@) == Some(b),
            Err(e) => parse_bool_spec(s@) is None && e.text@ == s@,
        },
{
    proof {
        reveal_strlit("1");
        reveal_strlit("0");
    }
    let n = s.unicode_len();
    if n == 1 {
        let c = s.get_char(0);
        if c == '1' {
            assert(s@ =~= "1"@);
            return Ok(true);
        }
        if c == '0' {
            assert(s@ =~= "0"@);
            return Ok(false);
        }
        assert(s@ != "1"@ && s@ != "0"@) by {
            assert(s@[0] != '1' && s@[0] != '0');
        }
        return Err(InvalidBooleanDigit { text: s.to_owned() });
    }
    assert(s@ != "1"@ && s@ != "0"@) by {
        assert(s@.len() != 1);
    }
    Err(InvalidBooleanDigit { text: s.to_owned() })
}

} // verus!
