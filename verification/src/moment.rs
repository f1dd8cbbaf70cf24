//! Moments: how a time is written out in the event log and in titles. A
//! moment is given by the nanoseconds that have passed since the Unix epoch.

use vstd::prelude::*;
use vstd::string::*;
use crate::event_log::{export_log_line, log_line};
use crate::step::ExportStep;

verus! {

/// A moment as RFC 3339 writes it, in universal time. There is none for a
/// moment that the calendar does not hold, and none where the moment cannot
/// be written so.
pub uninterp spec fn rfc3339_of(nanos: i128) -> Option<Seq<char>>;

/// A moment as it is displayed: date, time and offset, in universal time.
/// There is none for a moment that the calendar does not hold.
pub uninterp spec fn displayed_of(nanos: i128) -> Option<Seq<char>>;

/// `time::OffsetDateTime::format` with
/// `time::format_description::well_known::Rfc3339`, of the moment that
/// `time::OffsetDateTime::from_unix_timestamp_nanos` gives.
#[verifier::external_body]
fn rfc3339(nanos: i128) -> (text: Option<String>)
    ensures
        match text {
            Some(t) => rfc3339_of(nanos) == Some(t@),
            None => rfc3339_of(nanos).is_none(),
        },
{
    match time::OffsetDateTime::from_unix_timestamp_nanos(nanos) {
        Ok(moment) => moment.format(&time::format_description::well_known::Rfc3339).ok(),
        Err(_) => None,
    }
}

/// What `Display` writes of the moment that
/// `time::OffsetDateTime::from_unix_timestamp_nanos` gives.
#[verifier::external_body]
fn displayed(nanos: i128) -> (text: Option<String>)
    ensures
        match text {
            Some(t) => displayed_of(nanos) == Some(t@),
            None => displayed_of(nanos).is_none(),
        },
{
    match time::OffsetDateTime::from_unix_timestamp_nanos(nanos) {
        Ok(moment) => Some(format!("{}", moment)),
        Err(_) => None,
    }
}

/// The time of an entry of the event log: the moment as RFC 3339 writes
/// it, or, where it cannot be written so, as it is displayed.
pub open spec fn log_time(nanos: i128) -> Option<Seq<char>> {
    match rfc3339_of(nanos) {
        Some(t) => Some(t),
        None => displayed_of(nanos),
    }
}

/// Chooses the time of an entry of the event log from the two ways of
/// writing its moment.
pub fn choose_log_time(rfc3339: Option<String>, displayed: Option<String>) -> (text: Option<String>)
    ensures
        text == (match rfc3339 {
            Some(t) => Some(t),
            None => displayed,
        }),
{
    match rfc3339 {
        Some(t) => Some(t),
        None => displayed,
    }
}

/// The time of an entry of the event log that is made at the given
/// moment. There is none for a moment that the calendar does not hold.
pub fn log_time_text(nanos: i128) -> (text: Option<String>)
    ensures
        match text {
            Some(t) => log_time(nanos) == Some(t@),
            None => log_time(nanos).is_none(),
        },
{
    choose_log_time(rfc3339(nanos), displayed(nanos))
}

/// The line that is printed when a step of an export is logged at the given
/// moment. There is none for a moment that the calendar does not hold.
pub fn export_log_line_at(nanos: i128, export_id: i64, step: ExportStep, message: &str) -> (line:
    Option<String>)
    ensures
        match line {
            Some(l) => log_time(nanos) matches Some(time) && l@ == log_line(
                time,
                "export"@,
                export_id as int,
                step.label_text(),
                message@,
            ),
            None => log_time(nanos).is_none(),
        },
{
    match log_time_text(nanos) {
        Some(t) => Some(export_log_line(t.as_str(), export_id, step, message)),
        None => None,
    }
}

/// What distinguishes the title of a job that is created at the given
/// moment from a title that is taken: the moment as it is displayed. There
/// is none for a moment that the calendar does not hold.
pub fn title_suffix(nanos: i128) -> (suffix: Option<String>)
    ensures
        match suffix {
            Some(s) => displayed_of(nanos) == Some(s@),
            None => displayed_of(nanos).is_none(),
        },
{
    displayed(nanos)
}

} // verus!
