//! Event times in readable form. Event times are microseconds since the Unix
//! epoch.

use crate::decimal::decimal_from_i64;
use chrono::DateTime;
use vstd::prelude::*;

verus! {

/// The RFC 3339 text of an event time, where the calendar reaches that far.
pub uninterp spec fn rfc3339(time_us: i64) -> Option<Seq<char>>;

/// The view of an optional text.
pub open spec fn optional_text(text: Option<String>) -> Option<Seq<char>> {
    match text {
        Some(text) => Some(text@),
        None => None,
    }
}

/// Calls `chrono::DateTime::<Utc>::from_timestamp_micros`, and turns the date
/// it gives into text with `to_rfc3339`. The contract claims that the outcome,
/// `None` for a time out of the calendar's range or else the text, depends on
/// the time alone.
#[verifier::external_body]
fn rfc3339_from_micros(time_us: i64) -> (text: Option<String>)
    ensures
        optional_text(text) == rfc3339(time_us),
{
    match DateTime::from_timestamp_micros(time_us) {
        Some(date) => Some(date.to_rfc3339()),
        None => None,
    }
}

/// The time that a heartbeat reports: none before the first event.
pub fn heartbeat_timestamp(time_us: i64) -> (text: Option<String>)
    ensures
        optional_text(text) == if time_us > 0 {
            rfc3339(time_us)
        } else {
            None
        },
{
    if time_us > 0 {
        rfc3339_from_micros(time_us)
    } else {
        None
    }
}

/// The calendar text of an event time where there is one, or else the count of
/// microseconds.
pub open spec fn label(time_us: i64, calendar: Option<Seq<char>>) -> Seq<char> {
    match calendar {
        Some(text) => text,
        None => crate::decimal::decimal(time_us as int) + " microseconds"@,
    }
}

/// Labels an event time whose calendar text is given.
pub fn label_with(time_us: i64, calendar: Option<String>) -> (text: String)
    ensures
        text@ == label(time_us, optional_text(calendar)),
{
    match calendar {
        Some(text) => text,
        None => {
            let mut text = decimal_from_i64(time_us);
            text.append(" microseconds");
            text
        },
    }
}

/// Labels an event time.
pub fn event_label(time_us: i64) -> (text: String)
    ensures
        text@ == label(time_us, rfc3339(time_us)),
{
    label_with(time_us, rfc3339_from_micros(time_us))
}

/// A heartbeat tells the calendar time of the latest event, and no time as long
/// as there was none.
pub proof fn law_heartbeat_tells_event_time(time_us: i64, text: Option<String>)
    requires
        call_ensures(heartbeat_timestamp, (time_us,), text),
    ensures
        time_us <= 0 ==> text is None,
        time_us > 0 ==> match text {
            Some(text) => rfc3339(time_us) == Some(text@),
            None => rfc3339(time_us) is None,
        },
{
}

/// A label is the calendar text where there is one. Otherwise the count of
/// microseconds can be read back from it.
pub proof fn law_label_tells_event_time(time_us: i64, calendar: Option<String>, text: String)
    requires
        call_ensures(label_with, (time_us, calendar), text),
    ensures
        match calendar {
            Some(calendar) => text@ == calendar@,
            None => {
                let count = text@.take(text@.len() - 13);
                &&& text@ == count + " microseconds"@
                &&& crate::decimal::is_notation_of(count, time_us as int)
            },
        },
{
    reveal_strlit(" microseconds");
    crate::decimal::law_decimal_is_notation(time_us as int);
    if calendar is None {
        assert(text@.take(text@.len() - 13) =~= crate::decimal::decimal(time_us as int));
    }
}

/// An event time is labelled by its calendar text as far as the calendar
/// reaches, and otherwise by its count of microseconds.
pub proof fn law_event_label_tells_event_time(time_us: i64, text: String)
    requires
        call_ensures(event_label, (time_us,), text),
    ensures
        match rfc3339(time_us) {
            Some(calendar) => text@ == calendar,
            None => {
                let count = text@.take(text@.len() - 13);
                &&& text@ == count + " microseconds"@
                &&& crate::decimal::is_notation_of(count, time_us as int)
            },
        },
{
    reveal_strlit(" microseconds");
    crate::decimal::law_decimal_is_notation(time_us as int);
    if rfc3339(time_us) is None {
        assert(text@.take(text@.len() - 13) =~= crate::decimal::decimal(time_us as int));
    }
}

} // verus!
