//! Optional civil timestamp adapter: the empty string stands for the
//! absent value; any other text uses the non-optional timestamp encoding.

use vstd::prelude::*;
use vstd::string::StrSliceExecFns;

use crate::with::date_time::Timestamp;
use crate::with::date_time::TimestampError;
use crate::with::date_time::parse_timestamp_spec;
use crate::with::date_time::serialize as serialize_timestamp;
use crate::with::date_time::timestamp_text;

verus! {

/// The rendering of an optional timestamp: empty for the absent value.
pub open spec fn opt_timestamp_text(o: Option<Timestamp>) -> Seq<char> {
    match o {
        Some(t) => timestamp_text(t),
        None => Seq::<char>::empty(),
    }
}

/// The optional timestamp denoted by text: the empty string is the absent
/// value; anything else is read by the non-optional adapter.
pub open spec fn parse_opt_timestamp_spec(s: Seq<char>) -> Result<
    Option<Timestamp>,
    TimestampError,
> {
    if s.len() == 0 {
        Ok(None)
    } else {
        match parse_timestamp_spec(s) {
            Ok(t) => Ok(Some(t)),
            Err(e) => Err(e),
        }
    }
}

/// Encodes an absent timestamp as the empty string, a present one as its
/// `YYYY-MM-DD HH:MM:SS` text.
pub fn serialize(value: &Option<Timestamp>) -> (r: String)
    requires
        match *value {
            Some(t) => t.wf(),
            None => true,
        },
    ensures
        r@ == opt_timestamp_text(*value),
{
    match value {
        None => String::new(),
        Some(t) => serialize_timestamp(t),
    }
}

/// Decodes the empty string as the absent value; any other text is decoded
/// by the non-optional timestamp adapter and its error propagated
/// unchanged.
pub fn deserialize(s: &str) -> (r: Result<Option<Timestamp>, TimestampError>)
    ensures
        r == parse_opt_timestamp_spec(s@),
{
    if s.unicode_len() == 0 {
        Ok(None)
    } else {
        match crate::with::date_time::deserialize(s) {
            Ok(t) => Ok(Some(t)),
            Err(e) => Err(e),
        }
    }
}

} // verus!
