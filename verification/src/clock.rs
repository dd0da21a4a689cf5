//! Points in time as the booking rules read them, and the calls into
//! `chrono` that produce them.
use vstd::prelude::*;

verus! {

/// A point in time: the non-leap seconds since the Unix epoch and the
/// nanoseconds into that second (at or above 1_000_000_000 during a leap
/// second), as `chrono` reports them through `timestamp` and
/// `timestamp_subsec_nanos`.
#[derive(Clone, Copy, Debug, PartialEq, Eq, Structural)]
pub struct Moment {
    pub secs: i64,
    pub nanos: u32,
}

/// `a` lies strictly before `b` (the order of `chrono`'s `DateTime`, which
/// compares the UTC date, the second of the day and then the fraction).
pub open spec fn moment_before(a: Moment, b: Moment) -> bool {
    a.secs < b.secs || (a.secs == b.secs && a.nanos < b.nanos)
}

/// Decides `moment_before(*a, *b)`.
pub fn is_before(a: &Moment, b: &Moment) -> (r: bool)
    ensures
        r == moment_before(*a, *b),
{
    a.secs < b.secs || (a.secs == b.secs && a.nanos < b.nanos)
}

/// The current time, read once: the moment and its RFC 3339 text.
pub struct Clock {
    pub moment: Moment,
    pub text: String,
}

/// What `chrono::DateTime::parse_from_rfc3339` makes of a text: `None` when
/// it refuses it, else the timestamp and sub-second nanoseconds of the
/// parsed time.
pub uninterp spec fn rfc3339_moment(text: Seq<char>) -> Option<(i64, u32)>;

/// What `num_hours` gives for `end.signed_duration_since(start)` when both
/// texts parse with `chrono::DateTime::parse_from_rfc3339`, `None` when one
/// of them does not parse.
pub uninterp spec fn rfc3339_whole_hours(start: Seq<char>, end: Seq<char>) -> Option<i64>;

/// The moment a parse result stands for.
pub open spec fn parsed_moment(p: Option<(i64, u32)>) -> Option<Moment> {
    match p {
        Some((secs, nanos)) => Some(Moment { secs, nanos }),
        None => None,
    }
}

/// Parses an RFC 3339 date-time.
///
/// Trusted: calls `chrono::DateTime::parse_from_rfc3339` and reads the
/// result's `timestamp` and `timestamp_subsec_nanos`; the contract only names
/// the outcome, it does not describe the grammar.
#[verifier::external_body]
pub(crate) fn parse_rfc3339(text: &str) -> (r: Option<Moment>)
    ensures
        r == parsed_moment(rfc3339_moment(text@)),
{
    match chrono::DateTime::parse_from_rfc3339(text) {
        Ok(t) => Some(Moment { secs: t.timestamp(), nanos: t.timestamp_subsec_nanos() }),
        Err(_) => None,
    }
}

/// Whole hours from `start` to `end`, both RFC 3339 texts.
///
/// Trusted: parses both with `chrono::DateTime::parse_from_rfc3339` and
/// takes `num_hours` of `end.signed_duration_since(start)`. Besides naming
/// the result, the contract states what the source shows: there is a result
/// exactly when both texts parse.
#[verifier::external_body]
pub(crate) fn whole_hours_between(start: &str, end: &str) -> (r: Option<i64>)
    ensures
        r == rfc3339_whole_hours(start@, end@),
        r is Some <==> (rfc3339_moment(start@) is Some && rfc3339_moment(end@) is Some),
{
    match (chrono::DateTime::parse_from_rfc3339(start), chrono::DateTime::parse_from_rfc3339(end)) {
        (Ok(s), Ok(e)) => Some(e.signed_duration_since(s).num_hours()),
        _ => None,
    }
}

/// What `to_rfc3339` writes for the UTC time with the timestamp and
/// sub-second nanoseconds given.
pub uninterp spec fn rfc3339_text(secs: i64, nanos: u32) -> Seq<char>;

/// The first second of the year 10000: `to_rfc3339` writes later times
/// with a signed year, which `parse_from_rfc3339` refuses.
pub const YEAR_10000: i64 = 253402300800;

/// What holds of every reading of the clock: it is not before 1970, the
/// nanoseconds lie within the second, the text is the RFC 3339 form of the
/// moment, and up to the year 9999 that text parses back to the moment.
pub open spec fn clock_reading(m: Moment, text: Seq<char>) -> bool {
    &&& m.secs >= 0
    &&& m.nanos < 1_000_000_000
    &&& text == rfc3339_text(m.secs, m.nanos)
    &&& m.secs < YEAR_10000 ==> rfc3339_moment(text) == Some((m.secs, m.nanos))
}

/// Reads the system clock.
///
/// Trusted: calls `chrono::Utc::now` and converts the result into its
/// timestamp, sub-second nanoseconds and `to_rfc3339` text. Which moment
/// comes back depends on the time and is not stated; what is stated holds
/// of every reading: `Utc::now` refuses times before 1970 and builds the
/// moment from `SystemTime`, whose nanoseconds lie within the second;
/// `to_rfc3339` writes the year with four digits up to 9999, the fraction
/// exactly, and `+00:00`, which `parse_from_rfc3339` reads back.
#[verifier::external_body]
pub(crate) fn utc_now() -> (c: Clock)
    ensures
        c.moment.secs >= 0,
        c.moment.nanos < 1_000_000_000,
        c.text@ == rfc3339_text(c.moment.secs, c.moment.nanos),
        c.moment.secs < YEAR_10000 ==> rfc3339_moment(c.text@) == Some((c.moment.secs, c.moment.nanos)),
{
    let t = chrono::Utc::now();
    Clock {
        moment: Moment { secs: t.timestamp(), nanos: t.timestamp_subsec_nanos() },
        text: t.to_rfc3339(),
    }
}

} // verus!
