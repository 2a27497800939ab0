//! UTC instants as whole seconds since the Unix epoch plus a sub-second part,
//! and their RFC 3339 text form.
use vstd::prelude::*;

verus! {

/// First second of the year 0000 (0000-01-01T00:00:00Z).
pub const MIN_SECS: i64 = -62167219200;

/// Last second of the year 9999 (9999-12-31T23:59:59Z): the latest instant
/// whose RFC 3339 text has the four-digit year that the format requires.
pub const MAX_RFC3339_SECS: i64 = 253402300799;

/// Last second of the latest day that chrono represents (262142-12-31T23:59:59Z).
pub const MAX_SECS: i64 = 8210266876799;

/// Number of nanoseconds in one second.
pub const NANOS_PER_SEC: u32 = 1000000000;

/// An absolute UTC instant: `secs` whole seconds after 1970-01-01T00:00:00Z
/// and `nanos` nanoseconds into the following second.
#[derive(Clone, Copy, Debug, PartialEq, Eq, Structural)]
pub struct Timestamp {
    pub secs: i64,
    pub nanos: u32,
}

impl Timestamp {
    /// Well-formed: a non-leap sub-second part, and a year from 0000 up to the
    /// last year chrono represents.
    pub open spec fn wf(self) -> bool {
        &&& self.nanos < NANOS_PER_SEC
        &&& MIN_SECS <= self.secs <= MAX_SECS
    }

    /// The instant falls in the years 0000 through 9999.
    pub open spec fn in_rfc3339_years(self) -> bool {
        self.wf() && self.secs <= MAX_RFC3339_SECS
    }

    /// Builds an instant from its two parts; `None` when they are not well formed.
    pub fn from_parts(secs: i64, nanos: u32) -> (r: Option<Timestamp>)
        ensures
            r == (if (Timestamp { secs, nanos }).wf() {
                Some(Timestamp { secs, nanos })
            } else {
                None
            }),
    {
        if nanos < NANOS_PER_SEC && MIN_SECS <= secs && secs <= MAX_SECS {
            Some(Timestamp { secs, nanos })
        } else {
            None
        }
    }
}

/// The RFC 3339 text that chrono writes for the instant `(secs, nanos)`, with
/// `Z` for UTC and as many fractional digits (none, 3, 6 or 9) as it needs.
pub uninterp spec fn rfc3339_text(secs: int, nanos: int) -> Seq<char>;

/// The UTC instant `(secs, nanos)` that chrono reads from an RFC 3339 text, or
/// `None` where chrono refuses the text.
pub uninterp spec fn rfc3339_reading(s: Seq<char>) -> Option<(int, int)>;

/// Relies on chrono's `Utc::now`: it takes the system time since the epoch
/// (panicking before 1970), builds the instant with `DateTime::from_timestamp`
/// (panicking beyond chrono's range) from a sub-second part below one second,
/// and `timestamp` / `timestamp_subsec_nanos` give those parts back.
#[verifier::external_body]
pub(crate) fn now_utc() -> (r: Timestamp)
    ensures
        r.wf(),
{
    let now = chrono::Utc::now();
    Timestamp { secs: now.timestamp(), nanos: now.timestamp_subsec_nanos() }
}

/// Relies on chrono's `DateTime::from_timestamp`, which accepts every
/// well-formed instant, and `to_rfc3339_opts(SecondsFormat::AutoSi, true)`,
/// whose text for a four-digit year `DateTime::parse_from_rfc3339` reads back
/// as the same instant (the fraction is written without loss).
#[verifier::external_body]
pub(crate) fn rfc3339_of(t: Timestamp) -> (r: String)
    requires
        t.wf(),
    ensures
        r@ == rfc3339_text(t.secs as int, t.nanos as int),
        t.in_rfc3339_years() ==> rfc3339_reading(r@) == Some((t.secs as int, t.nanos as int)),
{
    chrono::DateTime::from_timestamp(t.secs, t.nanos).unwrap().to_rfc3339_opts(
        chrono::SecondsFormat::AutoSi,
        true,
    )
}

/// Relies on chrono's `DateTime::parse_from_rfc3339`, converted to UTC with
/// `timestamp` and `timestamp_subsec_nanos`; its error becomes `None`.
#[verifier::external_body]
pub(crate) fn read_rfc3339(s: &str) -> (r: Option<(i64, u32)>)
    ensures
        match r {
            Some(p) => rfc3339_reading(s@) == Some((p.0 as int, p.1 as int)),
            None => rfc3339_reading(s@).is_none(),
        },
{
    match chrono::DateTime::parse_from_rfc3339(s) {
        Ok(d) => Some((d.timestamp(), d.timestamp_subsec_nanos())),
        Err(_) => None,
    }
}

/// Reads an RFC 3339 text as a well-formed instant; `None` where the text is
/// not RFC 3339 or the instant it names is not well formed.
pub fn parse_timestamp(s: &str) -> (r: Option<Timestamp>)
    ensures
        r == reading_as_timestamp(rfc3339_reading(s@)),
{
    match read_rfc3339(s) {
        Some(p) => Timestamp::from_parts(p.0, p.1),
        None => None,
    }
}

/// The well-formed instant that a reading denotes, if any.
pub open spec fn reading_as_timestamp(p: Option<(int, int)>) -> Option<Timestamp> {
    match p {
        Some(q) => if i64::MIN <= q.0 <= i64::MAX && 0 <= q.1 <= u32::MAX && (Timestamp {
            secs: q.0 as i64,
            nanos: q.1 as u32,
        }).wf() {
            Some(Timestamp { secs: q.0 as i64, nanos: q.1 as u32 })
        } else {
            None
        },
        None => None,
    }
}

/// Writes a well-formed instant as RFC 3339 text.
pub fn format_timestamp(t: Timestamp) -> (r: String)
    requires
        t.wf(),
    ensures
        r@ == rfc3339_text(t.secs as int, t.nanos as int),
        t.in_rfc3339_years() ==> reading_as_timestamp(rfc3339_reading(r@)) == Some(t),
{
    rfc3339_of(t)
}

} // verus!
