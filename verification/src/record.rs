//! A worked example record showing the per-field adapter wiring: one
//! field for each scalar format adapter, rendered as attributes of a
//! single element and decoded back.

use vstd::prelude::*;
use vstd::string::StringExecFns;

use crate::text::all_digits;
use crate::text::is_digit_char;
use crate::text::lemma_pad2_correct;
use crate::text::lemma_pad2_len2;
use crate::text::lemma_pad4_correct;
use crate::text::pad2;
use crate::text::pad4;
use crate::with::bool_as_int;
use crate::with::bool_as_int::bool_text;
use crate::with::bool_as_int::parse_bool_spec;
use crate::with::date_time;
use crate::with::date_time::Timestamp;
use crate::with::date_time::lemma_timestamp_round_trip;
use crate::with::date_time::parse_timestamp_spec;
use crate::with::date_time::timestamp_text;
use crate::with::date_time_option;
use crate::with::date_time_option::opt_timestamp_text;
use crate::with::date_time_option::parse_opt_timestamp_spec;
use crate::with::duration;
use crate::with::duration::duration_text;
use crate::with::duration::lemma_duration_round_trip;
use crate::with::duration::parse_duration_spec;
use crate::with::duration_option;
use crate::with::duration_option::opt_duration_text;
use crate::with::duration_option::parse_opt_duration_spec;
use crate::xml::DeError;
use crate::xml::FromXML;
use crate::xml::ToXML;
use crate::xml::element::ElemView;
use crate::xml::element::XmlElement;
use crate::xml::element::attr_lookup;
use crate::xml::element::wf_name;
use crate::xml::element::wf_value;
use crate::xml::parse::parse_document_spec;
use crate::xml::render::document_text;
use crate::xml::round_trip::lemma_document_round_trip;

verus! {

/// A record with one field per scalar format adapter: a timestamp, an
/// optional timestamp, a duration total in seconds, an optional duration
/// total, and a boolean flag.
#[derive(Clone, Copy, Debug, PartialEq, Eq)]
pub struct EventRecord {
    pub date_time: Timestamp,
    pub date_time_option: Option<Timestamp>,
    pub duration: i64,
    pub duration_option: Option<i64>,
    pub bool_as_int: bool,
}

impl EventRecord {
    /// Every field lies in its adapter's encodable range: timestamps are
    /// valid and durations non-negative.
    pub open spec fn wf(&self) -> bool {
        &&& self.date_time.wf()
        &&& match self.date_time_option {
            Some(t) => t.wf(),
            None => true,
        }
        &&& self.duration >= 0
        &&& match self.duration_option {
            Some(d) => d >= 0,
            None => true,
        }
    }
}

/// The element shape of a record: one attribute per field, encoded by the
/// field's adapter, no children.
pub open spec fn event_elem(r: EventRecord) -> ElemView {
    ElemView {
        name: "EventRecord"@,
        attrs: seq![
            ("dateTime"@, timestamp_text(r.date_time)),
            ("dateTimeOption"@, opt_timestamp_text(r.date_time_option)),
            ("duration"@, duration_text(r.duration as int)),
            ("durationOption"@, opt_duration_text(r.duration_option)),
            ("boolAsInt"@, bool_text(r.bool_as_int)),
        ],
        children: Seq::empty(),
    }
}

/// The record denoted by an element shape: each field decoded by its
/// adapter from the attribute of its fixed name; the element's own name
/// and unknown attributes are ignored.
pub open spec fn decode_event(e: ElemView) -> Option<EventRecord> {
    match attr_lookup(e.attrs, "dateTime"@) {
        None => None,
        Some(v1) => match parse_timestamp_spec(v1) {
            Err(_) => None,
            Ok(date_time) => match attr_lookup(e.attrs, "dateTimeOption"@) {
                None => None,
                Some(v2) => match parse_opt_timestamp_spec(v2) {
                    Err(_) => None,
                    Ok(date_time_option) => match attr_lookup(e.attrs, "duration"@) {
                        None => None,
                        Some(v3) => match parse_duration_spec(v3) {
                            Err(_) => None,
                            Ok(duration) => match attr_lookup(e.attrs, "durationOption"@) {
                                None => None,
                                Some(v4) => match parse_opt_duration_spec(v4) {
                                    Err(_) => None,
                                    Ok(duration_option) => match attr_lookup(
                                        e.attrs,
                                        "boolAsInt"@,
                                    ) {
                                        None => None,
                                        Some(v5) => match parse_bool_spec(v5) {
                                            None => None,
                                            Some(bool_as_int) => Some(
                                                EventRecord {
                                                    date_time,
                                                    date_time_option,
                                                    duration,
                                                    duration_option,
                                                    bool_as_int,
                                                },
                                            ),
                                        },
                                    },
                                },
                            },
                        },
                    },
                },
            },
        },
    }
}

impl ToXML for EventRecord {
    open spec fn encodable(&self) -> bool {
        self.wf()
    }

    open spec fn elem_spec(&self) -> ElemView {
        event_elem(*self)
    }

    fn check_encodable(&self) -> (r: bool) {
        let dt_ok = self.date_time.check_wf();
        let dto_ok = match &self.date_time_option {
            Some(t) => t.check_wf(),
            None => true,
        };
        let d_ok = self.duration >= 0;
        let do_ok = match self.duration_option {
            Some(d) => d >= 0,
            None => true,
        };
        dt_ok && dto_ok && d_ok && do_ok
    }

    fn to_element(&self) -> (e: XmlElement) {
        let mut e = XmlElement::new(String::from_str("EventRecord"));
        e.push_attribute(String::from_str("dateTime"), date_time::serialize(&self.date_time));
        e.push_attribute(
            String::from_str("dateTimeOption"),
            date_time_option::serialize(&self.date_time_option),
        );
        e.push_attribute(String::from_str("duration"), duration::serialize(&self.duration));
        e.push_attribute(
            String::from_str("durationOption"),
            duration_option::serialize(&self.duration_option),
        );
        e.push_attribute(String::from_str("boolAsInt"), {
            let b: &'static str = bool_as_int::serialize(&self.bool_as_int);
            b.to_owned()
        });
        proof {
            assert(e@ =~= event_elem(*self));
        }
        e
    }
}

impl FromXML for EventRecord {
    open spec fn decode_elem_spec(e: ElemView) -> Option<EventRecord> {
        decode_event(e)
    }

    fn from_element(e: &XmlElement) -> (r: Result<EventRecord, DeError>) {
        let v1 = match e.attribute("dateTime") {
            Some(v) => v,
            None => {
                return Err(DeError::Record(String::from_str("missing attribute dateTime")));
            },
        };
        let v2 = match e.attribute("dateTimeOption") {
            Some(v) => v,
            None => {
                return Err(
                    DeError::Record(String::from_str("missing attribute dateTimeOption")),
                );
            },
        };
        let v3 = match e.attribute("duration") {
            Some(v) => v,
            None => {
                return Err(DeError::Record(String::from_str("missing attribute duration")));
            },
        };
        let v4 = match e.attribute("durationOption") {
            Some(v) => v,
            None => {
                return Err(
                    DeError::Record(String::from_str("missing attribute durationOption")),
                );
            },
        };
        let v5 = match e.attribute("boolAsInt") {
            Some(v) => v,
            None => {
                return Err(DeError::Record(String::from_str("missing attribute boolAsInt")));
            },
        };
        let date_time = match date_time::deserialize(v1.as_str()) {
            Ok(t) => t,
            Err(er) => {
                let mut m = String::from_str("dateTime: ");
                m.append(er.message());
                return Err(DeError::Record(m));
            },
        };
        let date_time_option = match date_time_option::deserialize(v2.as_str()) {
            Ok(o) => o,
            Err(er) => {
                let mut m = String::from_str("dateTimeOption: ");
                m.append(er.message());
                return Err(DeError::Record(m));
            },
        };
        let duration = match duration::deserialize(v3.as_str()) {
            Ok(d) => d,
            Err(er) => {
                let mut m = String::from_str("duration: ");
                let em = er.message();
                m.append(em.as_str());
                return Err(DeError::Record(m));
            },
        };
        let duration_option = match duration_option::deserialize(v4.as_str()) {
            Ok(o) => o,
            Err(er) => {
                let mut m = String::from_str("durationOption: ");
                let em = er.message();
                m.append(em.as_str());
                return Err(DeError::Record(m));
            },
        };
        let bool_as_int = match bool_as_int::deserialize(v5.as_str()) {
            Ok(b) => b,
            Err(er) => {
                let mut m = String::from_str("boolAsInt: ");
                let em = er.message();
                m.append(em.as_str());
                return Err(DeError::Record(m));
            },
        };
        Ok(EventRecord { date_time, date_time_option, duration, duration_option, bool_as_int })
    }
}

/// Digit text never holds the attribute-value delimiter.
proof fn lemma_digits_wf_value(s: Seq<char>)
    requires
        all_digits(s),
    ensures
        wf_value(s),
{
    assert forall|i: int| 0 <= i < s.len() implies s[i] != '"' by {
        assert(is_digit_char(s[i]));
    }
}

/// Timestamp text never holds the attribute-value delimiter.
proof fn lemma_timestamp_text_wf_value(t: Timestamp)
    requires
        t.wf(),
    ensures
        wf_value(timestamp_text(t)),
{
    let s = timestamp_text(t);
    lemma_pad4_correct(t.year as nat);
    lemma_pad2_correct(t.month as nat);
    lemma_pad2_len2(t.month as nat);
    lemma_pad2_correct(t.day as nat);
    lemma_pad2_len2(t.day as nat);
    lemma_pad2_correct(t.hour as nat);
    lemma_pad2_len2(t.hour as nat);
    lemma_pad2_correct(t.minute as nat);
    lemma_pad2_len2(t.minute as nat);
    lemma_pad2_correct(t.second as nat);
    lemma_pad2_len2(t.second as nat);
    assert forall|i: int| 0 <= i < s.len() implies s[i] != '"' by {
        if i < 4 {
            assert(s[i] == pad4(t.year as nat)[i]);
            assert(is_digit_char(s[i]));
        } else if i == 4 {
            assert(s[i] == '-');
        } else if i < 7 {
            assert(s[i] == pad2(t.month as nat)[i - 5]);
            assert(is_digit_char(s[i]));
        } else if i == 7 {
            assert(s[i] == '-');
        } else if i < 10 {
            assert(s[i] == pad2(t.day as nat)[i - 8]);
            assert(is_digit_char(s[i]));
        } else if i == 10 {
            assert(s[i] == ' ');
        } else if i < 13 {
            assert(s[i] == pad2(t.hour as nat)[i - 11]);
            assert(is_digit_char(s[i]));
        } else if i == 13 {
            assert(s[i] == ':');
        } else if i < 16 {
            assert(s[i] == pad2(t.minute as nat)[i - 14]);
            assert(is_digit_char(s[i]));
        } else if i == 16 {
            assert(s[i] == ':');
        } else {
            assert(s[i] == pad2(t.second as nat)[i - 17]);
            assert(is_digit_char(s[i]));
        }
    }
}

/// Duration text never holds the attribute-value delimiter.
proof fn lemma_duration_text_wf_value(d: i64)
    requires
        d >= 0,
    ensures
        wf_value(duration_text(d as int)),
{
    let s = duration_text(d as int);
    let h = (d as int / 3600) as nat;
    let m = (d as int % 3600 / 60) as nat;
    let sec = (d as int % 60) as nat;
    lemma_pad2_correct(h);
    lemma_pad2_correct(m);
    lemma_pad2_correct(sec);
    let a = pad2(h).len() as int;
    let b = a + 1 + pad2(m).len() as int;
    assert forall|i: int| 0 <= i < s.len() implies s[i] != '"' by {
        if i < a {
            assert(s[i] == pad2(h)[i]);
            assert(is_digit_char(s[i]));
        } else if i == a {
            assert(s[i] == ':');
        } else if i < b {
            assert(s[i] == pad2(m)[i - a - 1]);
            assert(is_digit_char(s[i]));
        } else if i == b {
            assert(s[i] == ':');
        } else {
            assert(s[i] == pad2(sec)[i - b - 1]);
            assert(is_digit_char(s[i]));
        }
    }
}

/// Law: the element shape of a record within its adapters' encodable
/// ranges is well-formed, and decoding it recovers the record exactly,
/// field for field — in particular, absent optional fields travel as
/// empty attribute values and return as absent.
#[verifier::rlimit(80)]
pub proof fn lemma_event_round_trip(r: EventRecord)
    requires
        r.wf(),
    ensures
        event_elem(r).wf(),
        decode_event(event_elem(r)) == Some(r),
{
    let e = event_elem(r);
    reveal_strlit("EventRecord");
    reveal_strlit("dateTime");
    reveal_strlit("dateTimeOption");
    reveal_strlit("duration");
    reveal_strlit("durationOption");
    reveal_strlit("boolAsInt");
    reveal_strlit("0");
    reveal_strlit("1");
    // The five attribute names are pairwise distinct: they differ in
    // length or in their second character.
    assert("dateTime"@.len() == 8);
    assert("dateTimeOption"@.len() == 14);
    assert("duration"@.len() == 8);
    assert("durationOption"@.len() == 14);
    assert("boolAsInt"@.len() == 9);
    assert("dateTime"@ != "dateTimeOption"@);
    assert("dateTime"@ != "durationOption"@);
    assert("dateTime"@ != "boolAsInt"@);
    assert("dateTime"@ != "duration"@) by {
        assert("dateTime"@[1] == 'a' && "duration"@[1] == 'u');
    }
    assert("dateTimeOption"@ != "duration"@);
    assert("dateTimeOption"@ != "boolAsInt"@);
    assert("dateTimeOption"@ != "durationOption"@) by {
        assert("dateTimeOption"@[1] == 'a' && "durationOption"@[1] == 'u');
    }
    assert("duration"@ != "durationOption"@);
    assert("duration"@ != "boolAsInt"@);
    assert("durationOption"@ != "boolAsInt"@);
    // Well-formedness: names are name characters, values avoid the quote.
    assert(wf_name("EventRecord"@));
    assert(wf_name("dateTime"@));
    assert(wf_name("dateTimeOption"@));
    assert(wf_name("duration"@));
    assert(wf_name("durationOption"@));
    assert(wf_name("boolAsInt"@));
    lemma_timestamp_text_wf_value(r.date_time);
    lemma_duration_text_wf_value(r.duration);
    assert(wf_value(opt_timestamp_text(r.date_time_option))) by {
        match r.date_time_option {
            Some(t) => {
                lemma_timestamp_text_wf_value(t);
            },
            None => {},
        }
    }
    assert(wf_value(opt_duration_text(r.duration_option))) by {
        match r.duration_option {
            Some(d) => {
                lemma_duration_text_wf_value(d);
            },
            None => {},
        }
    }
    assert(wf_value(bool_text(r.bool_as_int)));
    assert(e.wf());
    // Attribute lookups find each field's value in turn.
    reveal_with_fuel(attr_lookup, 6);
    let attrs = e.attrs;
    assert(attrs.subrange(1, 5)[0] == attrs[1]);
    assert(attrs.subrange(1, 5).subrange(1, 4) =~= attrs.subrange(2, 5));
    assert(attrs.subrange(2, 5)[0] == attrs[2]);
    assert(attrs.subrange(2, 5).subrange(1, 3) =~= attrs.subrange(3, 5));
    assert(attrs.subrange(3, 5)[0] == attrs[3]);
    assert(attrs.subrange(3, 5).subrange(1, 2) =~= attrs.subrange(4, 5));
    assert(attrs.subrange(4, 5)[0] == attrs[4]);
    assert(attr_lookup(attrs, "dateTime"@) == Some(timestamp_text(r.date_time)));
    assert(attr_lookup(attrs, "dateTimeOption"@) == Some(opt_timestamp_text(r.date_time_option)));
    assert(attr_lookup(attrs, "duration"@) == Some(duration_text(r.duration as int)));
    assert(attr_lookup(attrs, "durationOption"@) == Some(opt_duration_text(r.duration_option)));
    assert(attr_lookup(attrs, "boolAsInt"@) == Some(bool_text(r.bool_as_int)));
    // Each adapter decodes its own encoding.
    lemma_timestamp_round_trip(r.date_time);
    lemma_duration_round_trip(r.duration);
    assert(parse_opt_timestamp_spec(opt_timestamp_text(r.date_time_option)) == Ok::<
        Option<Timestamp>,
        crate::with::date_time::TimestampError,
    >(r.date_time_option)) by {
        match r.date_time_option {
            Some(t) => {
                lemma_pad4_correct(t.year as nat);
                assert(timestamp_text(t).len() > 0);
                lemma_timestamp_round_trip(t);
            },
            None => {},
        }
    }
    assert(parse_opt_duration_spec(opt_duration_text(r.duration_option)) == Ok::<
        Option<i64>,
        crate::with::duration::DurationError,
    >(r.duration_option)) by {
        match r.duration_option {
            Some(d) => {
                lemma_pad2_correct((d as int / 3600) as nat);
                assert(duration_text(d as int).len() > 0);
                lemma_duration_round_trip(d);
            },
            None => {},
        }
    }
    assert(parse_bool_spec(bool_text(r.bool_as_int)) == Some(r.bool_as_int)) by {
        assert("0"@ != "1"@) by {
            assert("0"@[0] == '0' && "1"@[0] == '1');
        }
    }
}

/// Law: for a record within its adapters' encodable ranges, parsing the
/// rendered document text — with or without the declaration header — and
/// decoding the element reproduces the record exactly.  The length bound
/// keeps the text inside the parser's accepted range.
pub proof fn lemma_event_document_round_trip(r: EventRecord, header: bool)
    requires
        r.wf(),
        document_text(event_elem(r), header).len() < usize::MAX - 4,
    ensures
        match parse_document_spec(document_text(event_elem(r), header)) {
            Some(ev) => decode_event(ev) == Some(r),
            None => false,
        },
{
    lemma_event_round_trip(r);
    lemma_document_round_trip(event_elem(r), header);
}

} // verus!
