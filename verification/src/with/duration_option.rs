//! Optional clock-duration adapter: the empty string stands for the absent
//! value; any other text uses the non-optional duration encoding.

use vstd::prelude::*;
use vstd::string::StrSliceExecFns;

use crate::with::duration::DurationError;
use crate::with::duration::duration_text;
use crate::with::duration::format_duration_as_time_string;
use crate::with::duration::parse_duration_from_time_string;
use crate::with::duration::parse_duration_spec;

verus! {

/// The rendering of an optional duration total: empty for the absent
/// value.
pub open spec fn opt_duration_text(o: Option<i64>) -> Seq<char> {
    match o {
        Some(d) => duration_text(d as int),
        None => Seq::<char>::empty(),
    }
}

/// The optional duration denoted by text: the empty string is the absent
/// value; anything else is read by the non-optional adapter.
pub open spec fn parse_opt_duration_spec(s: Seq<char>) -> Result<Option<i64>, DurationError> {
    if s.len() == 0 {
        Ok(None)
    } else {
        match parse_duration_spec(s) {
            Ok(d) => Ok(Some(d)),
            Err(e) => Err(e),
        }
    }
}

/// Encodes an absent duration as the empty string, a present one as its
/// canonical `HH:MM:SS` text.
pub fn serialize(value: &Option<i64>) -> (r: String)
    requires
        match *value {
            Some(d) => d >= 0,
            None => true,
        },
    ensures
        r@ == opt_duration_text(*value),
{
    match value {
        None => String::new(),
        Some(d) => format_duration_as_time_string(d),
    }
}

/// Decodes the empty string as the absent value; any other text is decoded
/// by the non-optional duration adapter and its error propagated unchanged.
pub fn deserialize(s: &str) -> (r: Result<Option<i64>, DurationError>)
    ensures
        r == parse_opt_duration_spec(s@),
{
    if s.unicode_len() == 0 {
        Ok(None)
    } else {
        match parse_duration_from_time_string(s) {
            Ok(d) => Ok(Some(d)),
            Err(e) => Err(e),
        }
    }
}

} // verus!
