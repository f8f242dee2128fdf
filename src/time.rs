use vstd::prelude::*;

verus! {

/// The first second that chrono can represent, counted from the Unix epoch.
pub const MIN_SECS: i64 = -8334601315200;

/// The last second that chrono can represent, counted from the Unix epoch.
pub const MAX_SECS: i64 = 8210266876799;

/// An instant in UTC: whole seconds since the Unix epoch, and nanoseconds past them.
#[derive(Debug, PartialEq, Eq, Structural, Clone, Copy)]
pub struct Timestamp {
    pub secs: i64,
    pub nanos: u32,
}

impl Timestamp {
    /// An instant that chrono can represent, with less than a second of nanoseconds.
    pub open spec fn valid(&self) -> bool {
        &&& MIN_SECS <= self.secs <= MAX_SECS
        &&& self.nanos < 1_000_000_000
    }
}

/// The RFC 3339 text that chrono writes for an instant in UTC.
pub uninterp spec fn rfc3339_of(secs: int, nanos: int) -> Seq<char>;

/// The instant that chrono reads from an RFC 3339 text, as seconds since the
/// epoch and nanoseconds past them, or nothing where the text is malformed.
pub uninterp spec fn rfc3339_instant(text: Seq<char>) -> Option<(int, int)>;

/// Relies on chrono's `Utc::now`: it reads the system clock as a duration since
/// the epoch and builds a `DateTime` from its seconds and sub-second nanoseconds,
/// which it unwraps, so the instant lies in chrono's range.
#[verifier::external_body]
pub(crate) fn now() -> (r: Timestamp)
    ensures
        r.valid(),
{
    let d = chrono::Utc::now();
    Timestamp { secs: d.timestamp(), nanos: d.timestamp_subsec_nanos() }
}

/// The first second of the year 0.
pub const YEAR_0_START: i64 = -62167219200;

/// The last second of the year 9999.
pub const YEAR_9999_END: i64 = 253402300799;

/// An instant whose year chrono writes with four digits, as RFC 3339 asks.
pub open spec fn four_digit_year(t: Timestamp) -> bool {
    YEAR_0_START <= t.secs <= YEAR_9999_END
}

/// Relies on chrono's `DateTime::from_timestamp`, which gives a `DateTime` for
/// every valid instant, and `DateTime::to_rfc3339`, which writes it with an
/// offset of `+00:00` and every nonzero digit of the nanoseconds. In the years
/// 0 to 9999 the year has four digits, so `parse_from_rfc3339` reads the text
/// back as the same instant.
#[verifier::external_body]
pub(crate) fn format_rfc3339(t: &Timestamp) -> (r: String)
    requires
        t.valid(),
    ensures
        r@ == rfc3339_of(t.secs as int, t.nanos as int),
        four_digit_year(*t) ==> rfc3339_instant(r@) == Some((t.secs as int, t.nanos as int)),
{
    match chrono::DateTime::from_timestamp(t.secs, t.nanos) {
        Some(d) => d.to_rfc3339(),
        None => String::new(),
    }
}

/// Relies on chrono's `DateTime::parse_from_rfc3339`, read back as seconds since
/// the epoch and sub-second nanoseconds of the parsed instant.
#[verifier::external_body]
pub(crate) fn parse_rfc3339(text: &str) -> (r: Option<Timestamp>)
    ensures
        match rfc3339_instant(text@) {
            Some(p) => r matches Some(t) && t.secs == p.0 && t.nanos == p.1,
            None => r is None,
        },
{
    chrono::DateTime::parse_from_rfc3339(text).ok().map(
        |d| Timestamp { secs: d.timestamp(), nanos: d.timestamp_subsec_nanos() },
    )
}

/// The instant a stored text stands for: the parsed instant where the text is a
/// well-formed RFC 3339 time of chrono's range, else `fallback`.
pub open spec fn timestamp_or_spec(text: Seq<char>, fallback: Timestamp) -> Timestamp {
    match rfc3339_instant(text) {
        Some(p) => if MIN_SECS <= p.0 <= MAX_SECS && 0 <= p.1 < 1_000_000_000 {
            Timestamp { secs: p.0 as i64, nanos: p.1 as u32 }
        } else {
            fallback
        },
        None => fallback,
    }
}

/// Reads a stored instant, or takes `fallback` where the text is malformed.
pub fn timestamp_or(text: &str, fallback: Timestamp) -> (r: Timestamp)
    ensures
        r == timestamp_or_spec(text@, fallback),
{
    match parse_rfc3339(text) {
        Some(t) => if MIN_SECS <= t.secs && t.secs <= MAX_SECS && t.nanos < 1_000_000_000 {
            t
        } else {
            fallback
        },
        None => fallback,
    }
}

} // verus!
