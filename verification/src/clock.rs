//! Points in time, and their RFC 3339 text as it is stored.

use vstd::prelude::*;

verus! {

/// Seconds in the freshness window of one day.
pub const DAY_SECONDS: i64 = 86_400;

/// A point in time in UTC: whole seconds since the Unix epoch and the
/// nanoseconds past that second. During a leap second the nanoseconds run
/// on past one billion.
#[derive(Clone, Copy, Debug, PartialEq, Eq, Structural)]
pub struct Timestamp {
    pub secs: i64,
    pub nanos: u32,
}

/// The RFC 3339 text of the time `secs`, `nanos`, or `None` where the
/// calendar cannot hold that time.
pub uninterp spec fn rfc3339_text(secs: int, nanos: int) -> Option<Seq<char>>;

/// The time that `text` denotes as RFC 3339, as seconds and nanoseconds in
/// UTC, or `None` where it is no such text.
pub uninterp spec fn rfc3339_time(text: Seq<char>) -> Option<(int, int)>;

/// Trusted: `chrono::DateTime::from_timestamp` followed by
/// `DateTime::to_rfc3339`. The first gives `None` for seconds or
/// nanoseconds outside the calendar's range; the text of any other time is
/// a function of the two numbers alone.
#[verifier::external_body]
pub(crate) fn format_rfc3339(secs: i64, nanos: u32) -> (r: Option<String>)
    ensures
        match r {
            Some(s) => rfc3339_text(secs as int, nanos as int) == Some(s@),
            None => rfc3339_text(secs as int, nanos as int).is_none(),
        },
{
    chrono::DateTime::from_timestamp(secs, nanos).map(|t| t.to_rfc3339())
}

/// Trusted: `chrono::DateTime::parse_from_rfc3339`, the result moved to UTC
/// and read as `timestamp` and `timestamp_subsec_nanos`. A text that is not
/// RFC 3339 gives `None`; otherwise the two numbers are a function of the
/// text alone.
#[verifier::external_body]
pub(crate) fn parse_rfc3339(text: &str) -> (r: Option<(i64, u32)>)
    ensures
        match r {
            Some(t) => rfc3339_time(text@) == Some((t.0 as int, t.1 as int)),
            None => rfc3339_time(text@).is_none(),
        },
{
    match chrono::DateTime::parse_from_rfc3339(text) {
        Ok(t) => {
            let utc = t.with_timezone(&chrono::Utc);
            Some((utc.timestamp(), utc.timestamp_subsec_nanos()))
        },
        Err(_) => None,
    }
}

/// The view of a text that may be absent.
pub open spec fn text_of_option(s: Option<String>) -> Option<Seq<char>> {
    match s {
        Some(t) => Some(t@),
        None => None,
    }
}

impl Timestamp {
    /// The time as its text, if it has one.
    pub open spec fn text(&self) -> Option<Seq<char>> {
        rfc3339_text(self.secs as int, self.nanos as int)
    }

    /// The time that a text denotes, if it denotes one.
    pub open spec fn of_text(text: Seq<char>) -> Option<Timestamp> {
        match rfc3339_time(text) {
            Some(t) => if i64::MIN <= t.0 <= i64::MAX && 0 <= t.1 <= u32::MAX {
                Some(Timestamp { secs: t.0 as i64, nanos: t.1 as u32 })
            } else {
                None
            },
            None => None,
        }
    }

    /// Whether the time can be stored: it has a text, and that text reads
    /// back as this time.
    pub open spec fn storable(&self) -> bool {
        match self.text() {
            Some(text) => Timestamp::of_text(text) == Some(*self),
            None => false,
        }
    }

    /// The text under which the time is stored, if it can be stored.
    pub open spec fn stored_text_spec(&self) -> Option<Seq<char>> {
        if self.storable() {
            self.text()
        } else {
            None
        }
    }

    /// Whether this time lies less than a day before `now`, or after it.
    pub open spec fn within_a_day_of(&self, now: Timestamp) -> bool {
        let cutoff = now.secs - DAY_SECONDS;
        self.secs > cutoff || (self.secs == cutoff && self.nanos > now.nanos)
    }

    /// The RFC 3339 text of this time, or `None` where the calendar cannot
    /// hold it.
    pub fn to_rfc3339(&self) -> (r: Option<String>)
        ensures
            match r {
                Some(s) => self.text() == Some(s@),
                None => self.text().is_none(),
            },
    {
        format_rfc3339(self.secs, self.nanos)
    }

    /// The time that `text` denotes as RFC 3339, or `None` where it denotes
    /// none.
    pub fn parse_from_rfc3339(text: &str) -> (r: Option<Timestamp>)
        ensures
            r == Timestamp::of_text(text@),
    {
        match parse_rfc3339(text) {
            Some(t) => Some(Timestamp { secs: t.0, nanos: t.1 }),
            None => None,
        }
    }

    /// The text under which the time is stored: its RFC 3339 text, if it
    /// has one that reads back as this time. A time that would not read
    /// back is not stored.
    pub fn stored_text(&self) -> (r: Option<String>)
        ensures
            text_of_option(r) == self.stored_text_spec(),
    {
        match self.to_rfc3339() {
            None => None,
            Some(text) => match Timestamp::parse_from_rfc3339(text.as_str()) {
                Some(back) => if back.secs == self.secs && back.nanos == self.nanos {
                    Some(text)
                } else {
                    None
                },
                None => None,
            },
        }
    }

    /// Whether this time is newer than one day before `now`.
    pub fn is_within_a_day_of(&self, now: &Timestamp) -> (b: bool)
        ensures
            b == self.within_a_day_of(*now),
    {
        let cutoff: i128 = now.secs as i128 - DAY_SECONDS as i128;
        let mine: i128 = self.secs as i128;
        mine > cutoff || (mine == cutoff && self.nanos > now.nanos)
    }
}

} // verus!
