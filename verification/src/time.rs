//! Points in time and spans of time, counted in nanoseconds.
//!
//! `Timestamp` covers the range of a Unix `SystemTime` (whole seconds fit in
//! an `i64`), and `TimeSpan` covers the range of a `Duration` (whole seconds
//! fit in a `u64`).

use vstd::prelude::*;

verus! {

/// Nanoseconds in one second.
pub const NANOS_PER_SEC: u128 = 1_000_000_000;

/// Largest span: `u64::MAX` seconds and 999_999_999 nanoseconds.
pub const MAX_SPAN_NANOS: u128 = 18_446_744_073_709_551_615_999_999_999;

/// Latest timestamp: `i64::MAX` seconds and 999_999_999 nanoseconds after the epoch.
pub const MAX_TIMESTAMP_NANOS: i128 = 9_223_372_036_854_775_807_999_999_999;

/// Earliest timestamp: `i64::MIN` seconds relative to the epoch.
pub const MIN_TIMESTAMP_NANOS: i128 = -9_223_372_036_854_775_808_000_000_000;

/// A non-negative span of time.
#[derive(Debug, Clone, Copy, PartialEq, Eq, PartialOrd, Ord, Hash)]
pub struct TimeSpan {
    nanos: u128,
}

/// A point in time, relative to the Unix epoch.
#[derive(Debug, Clone, Copy, PartialEq, Eq, PartialOrd, Ord, Hash)]
pub struct Timestamp {
    nanos: i128,
}

impl TimeSpan {
    #[verifier::type_invariant]
    spec fn in_range(self) -> bool {
        self.nanos <= MAX_SPAN_NANOS
    }

    /// The span in nanoseconds.
    pub closed spec fn spec_nanos(self) -> int {
        self.nanos as int
    }

    /// A span of zero length.
    pub fn zero() -> (r: TimeSpan)
        ensures
            r.spec_nanos() == 0,
    {
        TimeSpan { nanos: 0 }
    }

    /// A span of whole seconds.
    pub fn from_secs(secs: u64) -> (r: TimeSpan)
        ensures
            r.spec_nanos() == secs * 1_000_000_000,
    {
        let n: u128 = (secs as u128) * NANOS_PER_SEC;
        TimeSpan { nanos: n }
    }

    /// A span of nanoseconds, when it does not exceed the largest span.
    pub fn from_nanos(nanos: u128) -> (r: Option<TimeSpan>)
        ensures
            r is Some <==> nanos <= MAX_SPAN_NANOS,
            r matches Some(s) ==> s.spec_nanos() == nanos,
    {
        if nanos <= MAX_SPAN_NANOS {
            Some(TimeSpan { nanos })
        } else {
            None
        }
    }

    /// Total nanoseconds in the span.
    pub fn as_nanos(&self) -> (r: u128)
        ensures
            r == self.spec_nanos(),
    {
        self.nanos
    }

    /// Whole seconds in the span (the fraction is dropped).
    pub fn as_secs(&self) -> (r: u64)
        ensures
            r == self.spec_nanos() / 1_000_000_000,
    {
        proof {
            use_type_invariant(self);
        }
        (self.nanos / NANOS_PER_SEC) as u64
    }
}

impl Timestamp {
    #[verifier::type_invariant]
    spec fn in_range(self) -> bool {
        MIN_TIMESTAMP_NANOS <= self.nanos <= MAX_TIMESTAMP_NANOS
    }

    /// Nanoseconds since the Unix epoch (negative before it).
    pub closed spec fn spec_nanos(self) -> int {
        self.nanos as int
    }

    /// The Unix epoch itself.
    pub fn unix_epoch() -> (r: Timestamp)
        ensures
            r.spec_nanos() == 0,
    {
        Timestamp { nanos: 0 }
    }

    /// The timestamp `nanos` nanoseconds after the epoch, when it is in range.
    pub fn from_unix_nanos(nanos: i128) -> (r: Option<Timestamp>)
        ensures
            r is Some <==> MIN_TIMESTAMP_NANOS <= nanos <= MAX_TIMESTAMP_NANOS,
            r matches Some(t) ==> t.spec_nanos() == nanos,
    {
        if MIN_TIMESTAMP_NANOS <= nanos && nanos <= MAX_TIMESTAMP_NANOS {
            Some(Timestamp { nanos })
        } else {
            None
        }
    }

    /// The timestamp `secs` whole seconds after the epoch.
    pub fn from_unix_secs(secs: u64) -> (r: Timestamp)
        requires
            secs <= 9_223_372_036_854_775_807u64,
        ensures
            r.spec_nanos() == secs * 1_000_000_000,
    {
        let n: i128 = (secs as i128) * 1_000_000_000;
        Timestamp { nanos: n }
    }

    /// Nanoseconds since the Unix epoch.
    pub fn unix_nanos(&self) -> (r: i128)
        ensures
            r == self.spec_nanos(),
            MIN_TIMESTAMP_NANOS <= r <= MAX_TIMESTAMP_NANOS,
    {
        proof {
            use_type_invariant(self);
        }
        self.nanos
    }

    /// `self + span`, or `None` when the result would leave the timestamp range.
    pub fn checked_add(&self, span: TimeSpan) -> (r: Option<Timestamp>)
        ensures
            r is Some <==> self.spec_nanos() + span.spec_nanos() <= MAX_TIMESTAMP_NANOS,
            r matches Some(t) ==> t.spec_nanos() == self.spec_nanos() + span.spec_nanos(),
    {
        proof {
            use_type_invariant(self);
            use_type_invariant(span);
        }
        let sum: i128 = self.nanos + (span.nanos as i128);
        if sum <= MAX_TIMESTAMP_NANOS {
            Some(Timestamp { nanos: sum })
        } else {
            None
        }
    }

    /// `self + span`; the sum must stay in range.
    pub fn add(&self, span: TimeSpan) -> (r: Timestamp)
        requires
            self.spec_nanos() + span.spec_nanos() <= MAX_TIMESTAMP_NANOS,
        ensures
            r.spec_nanos() == self.spec_nanos() + span.spec_nanos(),
    {
        proof {
            use_type_invariant(self);
            use_type_invariant(span);
        }
        Timestamp { nanos: self.nanos + (span.nanos as i128) }
    }

    /// The span from `earlier` to `self`, or `None` when `earlier` is later than `self`.
    pub fn duration_since(&self, earlier: Timestamp) -> (r: Option<TimeSpan>)
        ensures
            r is Some <==> earlier.spec_nanos() <= self.spec_nanos(),
            r matches Some(s) ==> s.spec_nanos() == self.spec_nanos() - earlier.spec_nanos(),
    {
        proof {
            use_type_invariant(self);
            use_type_invariant(earlier);
        }
        if earlier.nanos <= self.nanos {
            let d: i128 = self.nanos - earlier.nanos;
            Some(TimeSpan { nanos: d as u128 })
        } else {
            None
        }
    }

    /// Whether `self` is at or before `other`.
    pub fn is_at_or_before(&self, other: &Timestamp) -> (r: bool)
        ensures
            r == (self.spec_nanos() <= other.spec_nanos()),
    {
        self.nanos <= other.nanos
    }

    /// Whether `self` is strictly before `other`.
    pub fn is_before(&self, other: &Timestamp) -> (r: bool)
        ensures
            r == (self.spec_nanos() < other.spec_nanos()),
    {
        self.nanos < other.nanos
    }
}

/// `SystemTime::now()` measured against `UNIX_EPOCH`: `Ok((secs, nanos))` for a
/// clock at or after the epoch, `Err((secs, nanos))` for one that far before it.
/// Only that the sub-second part is below one second is claimed (`Duration::subsec_nanos`).
#[verifier::external_body]
fn system_clock() -> (r: Result<(u64, u32), (u64, u32)>)
    ensures
        r matches Ok((_, n)) ==> n < 1_000_000_000,
        r matches Err((_, n)) ==> n < 1_000_000_000,
{
    match std::time::SystemTime::now().duration_since(std::time::UNIX_EPOCH) {
        Ok(d) => Ok((d.as_secs(), d.subsec_nanos())),
        Err(e) => Err((e.duration().as_secs(), e.duration().subsec_nanos())),
    }
}

/// The instant, in nanoseconds from the epoch, of a clock reading: `Ok((secs,
/// nanos))` that far after the epoch, `Err((secs, nanos))` that far before it,
/// held to the range of timestamps when the whole seconds leave `i64`.
pub open spec fn clock_instant(reading: Result<(u64, u32), (u64, u32)>) -> int {
    match reading {
        Ok((secs, nanos)) => if secs <= 9_223_372_036_854_775_807u64 {
            secs * 1_000_000_000 + nanos
        } else {
            MAX_TIMESTAMP_NANOS as int
        },
        Err((secs, nanos)) => if secs <= 9_223_372_036_854_775_807u64 {
            -(secs * 1_000_000_000 + nanos)
        } else {
            MIN_TIMESTAMP_NANOS as int
        },
    }
}

/// Whether the sub-second part of a clock reading is below one second.
pub open spec fn clock_reading_valid(reading: Result<(u64, u32), (u64, u32)>) -> bool {
    match reading {
        Ok((_, nanos)) => nanos < 1_000_000_000,
        Err((_, nanos)) => nanos < 1_000_000_000,
    }
}

impl Timestamp {
    /// The current time of the system clock: the instant of the clock's
    /// reading against the Unix epoch. Which reading the clock gives is not
    /// stated.
    pub fn now() -> (r: Timestamp)
        ensures
            exists|reading: Result<(u64, u32), (u64, u32)>|
                clock_reading_valid(reading) && r.spec_nanos() == #[trigger] clock_instant(reading),
    {
        let reading = system_clock();
        let t = Timestamp::from_clock_reading(reading);
        assert(t.spec_nanos() == clock_instant(reading));
        t
    }

    /// The instant of a clock reading taken against the Unix epoch (see
    /// `clock_instant`).
    pub fn from_clock_reading(reading: Result<(u64, u32), (u64, u32)>) -> (r: Timestamp)
        requires
            clock_reading_valid(reading),
        ensures
            r.spec_nanos() == clock_instant(reading),
    {
        match reading {
            Ok((secs, nanos)) => {
                if secs <= 9_223_372_036_854_775_807u64 {
                    let n: i128 = (secs as i128) * 1_000_000_000 + (nanos as i128);
                    Timestamp { nanos: n }
                } else {
                    Timestamp { nanos: MAX_TIMESTAMP_NANOS }
                }
            },
            Err((secs, nanos)) => {
                if secs <= 9_223_372_036_854_775_807u64 {
                    let n: i128 = -((secs as i128) * 1_000_000_000 + (nanos as i128));
                    Timestamp { nanos: n }
                } else {
                    Timestamp { nanos: MIN_TIMESTAMP_NANOS }
                }
            },
        }
    }

    /// Whole seconds since the epoch, rounded down.
    pub fn unix_secs_floor(&self) -> (r: i64)
        ensures
            r == self.spec_nanos() / 1_000_000_000,
    {
        proof {
            use_type_invariant(self);
        }
        let q: i128 = self.nanos / 1_000_000_000;
        let r: i128 = self.nanos % 1_000_000_000;
        if r < 0 {
            (q - 1) as i64
        } else {
            q as i64
        }
    }
}

/// The RFC 3339 text, in UTC and without fractional seconds, of the instant
/// `secs` whole seconds after the Unix epoch.
pub uninterp spec fn rfc3339_seconds_text(secs: int) -> Seq<char>;

/// The instant, in nanoseconds after the Unix epoch, that an RFC 3339 UTC text
/// denotes, or `None` when the text is not one.
pub uninterp spec fn rfc3339_instant(text: Seq<char>) -> Option<int>;

/// Latest second `humantime` can print (the start of year 10000).
pub const RFC3339_LIMIT_SECS: u64 = 253_402_300_800;

/// `humantime::format_rfc3339_seconds(UNIX_EPOCH + Duration::from_secs(secs))`
/// rendered with `to_string`: the UTC RFC 3339 text of that instant without
/// fractional seconds, claimed to be what `rfc3339_seconds_text` names. The
/// formatter fails for instants from year 10000 on, so those are excluded.
#[verifier::external_body]
pub(crate) fn format_rfc3339_seconds(secs: u64) -> (r: String)
    requires
        secs < RFC3339_LIMIT_SECS,
    ensures
        r@ == rfc3339_seconds_text(secs as int),
{
    humantime::format_rfc3339_seconds(std::time::UNIX_EPOCH + std::time::Duration::from_secs(secs)).to_string()
}

/// `humantime::parse_rfc3339`: the instant an RFC 3339 UTC text denotes, as
/// whole seconds and nanoseconds after the epoch, claimed to be what
/// `rfc3339_instant` names; `None` when the text does not parse. The parser
/// accepts years 1970 to 9999 only and refuses any instant past the last
/// second of year 9999, so the seconds are below `RFC3339_LIMIT_SECS`.
#[verifier::external_body]
pub(crate) fn parse_rfc3339(text: &str) -> (r: Option<(u64, u32)>)
    ensures
        r matches Some((s, n)) ==> s < RFC3339_LIMIT_SECS && n < 1_000_000_000 && rfc3339_instant(text@)
            == Some(s * 1_000_000_000 + n),
        r is None ==> rfc3339_instant(text@) is None,
{
    match humantime::parse_rfc3339(text) {
        Ok(t) => match t.duration_since(std::time::UNIX_EPOCH) {
            Ok(d) => Some((d.as_secs(), d.subsec_nanos())),
            Err(_) => None,
        },
        Err(_) => None,
    }
}


/// Whether an instant can be printed in RFC 3339: from the epoch up to the
/// last second of year 9999.
pub open spec fn printable_instant(nanos: int) -> bool {
    0 <= nanos && nanos / 1_000_000_000 < RFC3339_LIMIT_SECS
}

impl Timestamp {
    /// Whether the instant can be printed in RFC 3339.
    pub fn is_printable(&self) -> (r: bool)
        ensures
            r == printable_instant(self.spec_nanos()),
    {
        let n = self.unix_nanos();
        n >= 0 && n / 1_000_000_000 < RFC3339_LIMIT_SECS as i128
    }

    /// The RFC 3339 text of the instant, in UTC, without fractional seconds
    /// (`humantime::format_rfc3339_seconds`).
    pub fn to_rfc3339(&self) -> (r: String)
        requires
            printable_instant(self.spec_nanos()),
        ensures
            r@ == rfc3339_seconds_text(self.spec_nanos() / 1_000_000_000),
    {
        let secs = self.unix_secs_floor();
        format_rfc3339_seconds(secs as u64)
    }
}

} // verus!
