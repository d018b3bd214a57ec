//! Points in time, and the two textual forms in which they reach the
//! library: the catalog's purchase dates and the operator's cutoff day.

use vstd::prelude::*;
use vstd::string::StringExecFns;

verus! {

/// The form in which the catalog writes a purchase date, such as
/// `30 Jan 2026 02:51:12 GMT`.
pub const PURCHASE_DATE_FORMAT: &'static str = "%d %b %Y %T %Z";

/// The form in which the operator writes the cutoff day, such as
/// `2026-01-30`.
pub const CUTOFF_DAY_FORMAT: &'static str = "%Y-%m-%d";

/// The number that the proleptic Gregorian day count, which starts with 1 on
/// 1 January of year 1, gives to 1 January 1970.
pub const EPOCH_DAY: i64 = 719_163;

pub const SECONDS_PER_DAY: i64 = 86_400;

/// A point in time on the UTC scale: whole seconds since the start of 1970,
/// and nanoseconds since that second began. During a leap second the
/// nanoseconds run on past 999,999,999.
#[derive(Clone, Copy, Debug, PartialEq, Eq, Structural)]
pub struct Timestamp {
    pub secs: i64,
    pub nanos: u32,
}

impl Timestamp {
    /// Whether `self` is strictly earlier than `other`.
    pub open spec fn precedes(self, other: Timestamp) -> bool {
        self.secs < other.secs || (self.secs == other.secs && self.nanos < other.nanos)
    }

    /// The first instant of the day with the given proleptic Gregorian day
    /// number.
    pub open spec fn midnight(day: i32) -> Timestamp {
        Timestamp { secs: ((day - EPOCH_DAY) * SECONDS_PER_DAY) as i64, nanos: 0 }
    }

    /// The instant that a parser reported as seconds and nanoseconds.
    pub open spec fn from_parts(parts: Option<(i64, u32)>) -> Option<Timestamp> {
        match parts {
            Some((secs, nanos)) => Some(Timestamp { secs, nanos }),
            None => None,
        }
    }

    /// Tells whether `self` is strictly earlier than `other`.
    pub fn is_before(&self, other: &Timestamp) -> (earlier: bool)
        ensures
            earlier == self.precedes(*other),
    {
        self.secs < other.secs || (self.secs == other.secs && self.nanos < other.nanos)
    }

    /// The first instant of day number `day`.
    pub fn at_midnight(day: i32) -> (start: Timestamp)
        ensures
            start == Timestamp::midnight(day),
    {
        let days: i64 = day as i64 - EPOCH_DAY;
        Timestamp { secs: days * SECONDS_PER_DAY, nanos: 0 }
    }
}

/// What `chrono::NaiveDateTime::parse_from_str` makes of `text` under
/// `format`, with the date and time it found read as UTC: the seconds since
/// the start of 1970 and the nanoseconds within the second, or `None` where
/// it reports an error.
pub uninterp spec fn naive_datetime(text: Seq<char>, format: Seq<char>) -> Option<(i64, u32)>;

/// What `chrono::NaiveDate::parse_from_str` makes of `text` under `format`:
/// the proleptic Gregorian day number of the date it found, or `None` where
/// it reports an error.
pub uninterp spec fn calendar_day(text: Seq<char>, format: Seq<char>) -> Option<i32>;

/// Calls `chrono::NaiveDateTime::parse_from_str`, reads the outcome as UTC
/// and hands back its `timestamp` and `timestamp_subsec_nanos`. Nothing is
/// proved of the parsing: the contract only gives the outcome its name.
#[verifier::external_body]
fn parse_naive_datetime(text: &str, format: &str) -> (parts: Option<(i64, u32)>)
    ensures
        parts == naive_datetime(text@, format@),
{
    match chrono::NaiveDateTime::parse_from_str(text, format) {
        Ok(moment) => Some((moment.and_utc().timestamp(), moment.and_utc().timestamp_subsec_nanos())),
        Err(_) => None,
    }
}

/// Calls `chrono::NaiveDate::parse_from_str` and hands back the day number
/// (`Datelike::num_days_from_ce`) of the date it found. Nothing is proved of
/// the parsing: the contract only gives the outcome its name.
#[verifier::external_body]
fn parse_calendar_day(text: &str, format: &str) -> (day: Option<i32>)
    ensures
        day == calendar_day(text@, format@),
{
    match chrono::NaiveDate::parse_from_str(text, format) {
        Ok(date) => Some(chrono::Datelike::num_days_from_ce(&date)),
        Err(_) => None,
    }
}

/// The instant that a purchase date in the catalog's form stands for, if it
/// is in that form.
pub open spec fn purchase_instant(text: Seq<char>) -> Option<Timestamp> {
    Timestamp::from_parts(naive_datetime(text, PURCHASE_DATE_FORMAT@))
}

/// The purchase instant that falls before the cutoff, if there is a cutoff,
/// a purchase instant, and the one is strictly earlier than the other.
pub open spec fn earlier_purchase(after: Option<Timestamp>, purchased: Option<Timestamp>) -> Option<
    Timestamp,
> {
    match (after, purchased) {
        (Some(cutoff), Some(at)) if at.precedes(cutoff) => Some(at),
        _ => None,
    }
}

/// The message for a cutoff day that is not in the expected form.
pub open spec fn invalid_date_message(text: Seq<char>) -> Seq<char> {
    "Invalid date '"@ + text + "'. Use YYYY-MM-DD format."@
}

/// Reads a purchase date in the catalog's form.
pub fn parse_purchased_date(s: &str) -> (at: Option<Timestamp>)
    ensures
        at == purchase_instant(s@),
{
    match parse_naive_datetime(s, PURCHASE_DATE_FORMAT) {
        Some((secs, nanos)) => Some(Timestamp { secs, nanos }),
        None => None,
    }
}

/// Decides whether a purchase made at `purchased` falls before the cutoff
/// `after`, and if so hands the purchase instant back. Without a cutoff, and
/// without a purchase instant, nothing falls before it.
pub fn before_cutoff(after: Option<Timestamp>, purchased: Option<Timestamp>) -> (earlier: Option<
    Timestamp,
>)
    ensures
        earlier == earlier_purchase(after, purchased),
{
    match (after, purchased) {
        (Some(cutoff), Some(at)) => if at.is_before(&cutoff) {
            Some(at)
        } else {
            None
        },
        _ => None,
    }
}

/// Decides whether an item whose purchase date the catalog gave as
/// `purchased` was bought before the cutoff `after`. A date that is missing,
/// or not in the catalog's form, is never before the cutoff.
pub fn is_before_filter(after: Option<Timestamp>, purchased: Option<&String>) -> (earlier: Option<
    Timestamp,
>)
    ensures
        earlier == earlier_purchase(
            after,
            match purchased {
                Some(text) => purchase_instant(text@),
                None => None,
            },
        ),
{
    match (after, purchased) {
        (Some(cutoff), Some(text)) => before_cutoff(Some(cutoff), parse_purchased_date(text.as_str())),
        _ => None,
    }
}

/// Reads a cutoff day written as year, month and day, and gives the first
/// instant of that day. Anything else is answered with a message that names
/// the text and the form it should have had.
pub fn parse_date(s: &str) -> (parsed: Result<Timestamp, String>)
    ensures
        match calendar_day(s@, CUTOFF_DAY_FORMAT@) {
            Some(day) => parsed == Ok::<Timestamp, String>(Timestamp::midnight(day)),
            None => parsed matches Err(message) && message@ == invalid_date_message(s@),
        },
{
    match parse_calendar_day(s, CUTOFF_DAY_FORMAT) {
        Some(day) => Ok(Timestamp::at_midnight(day)),
        None => {
            let mut message = String::from_str("Invalid date '");
            message.append(s);
            message.append("'. Use YYYY-MM-DD format.");
            Err(message)
        },
    }
}

} // verus!
