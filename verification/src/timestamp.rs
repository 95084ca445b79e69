//! Calendar timestamps without a time zone, as `chrono` reads and writes them.

use chrono::DateTime;
use chrono::NaiveDateTime;
use vstd::prelude::*;

verus! {

/// A date and a time of day with no time zone: the seconds since midnight of
/// 1 January 1970, and the nanoseconds of the second begun. A second's worth
/// of nanoseconds or more stands for a leap second.
#[derive(Debug, Clone, Copy, PartialEq, Eq, Structural)]
pub struct NaiveTimestamp {
    pub seconds: i64,
    pub nanoseconds: u32,
}

impl DeepView for NaiveTimestamp {
    type V = NaiveTimestamp;

    open spec fn deep_view(&self) -> NaiveTimestamp {
        *self
    }
}

/// The timestamp that `text` spells in the form `2015-09-18T23:56:04.5`, if
/// it spells one.
pub uninterp spec fn naive_datetime_of(text: Seq<char>) -> Option<NaiveTimestamp>;

/// A timestamp written in the form `2015-09-18T23:56:04.5`; `None` for one
/// that lies outside the calendar's range.
pub uninterp spec fn naive_datetime_text(timestamp: NaiveTimestamp) -> Option<Seq<char>>;

/// `NaiveDateTime`'s `FromStr`, and the timestamp read taken apart by
/// `and_utc`, `timestamp` and `timestamp_subsec_nanos`: the same text gives
/// the same timestamp.
#[verifier::external_body]
pub(crate) fn read_naive_datetime(text: &str) -> (r: Option<NaiveTimestamp>)
    ensures
        r == naive_datetime_of(text@),
{
    text.parse::<NaiveDateTime>().ok().map(|t| NaiveTimestamp {
        seconds: t.and_utc().timestamp(),
        nanoseconds: t.and_utc().timestamp_subsec_nanos(),
    })
}

/// `DateTime::from_timestamp`, `naive_utc` and `NaiveDateTime`'s `Debug`:
/// the same timestamp gives the same text, the text is not empty, and, as
/// the `Debug` impl documents, it can be parsed again, which gives the
/// timestamp back.
#[verifier::external_body]
pub(crate) fn write_naive_datetime(timestamp: NaiveTimestamp) -> (r: Option<String>)
    ensures
        r.deep_view() == naive_datetime_text(timestamp),
        r matches Some(text) ==> text@.len() > 0 && naive_datetime_of(text@) == Some(timestamp),
{
    DateTime::from_timestamp(timestamp.seconds, timestamp.nanoseconds).map(
        |t| format!("{:?}", t.naive_utc()),
    )
}

} // verus!
