//! Instants and the spans between them, to the nanosecond.
use vstd::prelude::*;

verus! {

/// A point in time: whole seconds since the Unix epoch and the nanoseconds
/// within that second.
#[derive(Clone, Copy, Debug, PartialEq, Eq, Structural)]
pub struct Timestamp {
    pub secs: i64,
    pub nanos: u32,
}

impl Timestamp {
    /// The instant as a count of nanoseconds since the epoch.
    pub open spec fn as_nanos(self) -> int {
        self.secs as int * 1_000_000_000 + self.nanos as int
    }

    /// Nanoseconds that pass from `earlier` to `self` (negative when `self`
    /// comes first).
    pub open spec fn nanos_since(self, earlier: Timestamp) -> int {
        self.as_nanos() - earlier.as_nanos()
    }

    /// Whether at least `span` nanoseconds lie between `earlier` and `self`.
    pub open spec fn spec_at_least(self, earlier: Timestamp, span: int) -> bool {
        self.nanos_since(earlier) >= span
    }

    /// Whether more than `span` nanoseconds lie between `earlier` and `self`.
    pub open spec fn spec_more_than(self, earlier: Timestamp, span: int) -> bool {
        self.nanos_since(earlier) > span
    }

    /// Whole seconds from `earlier` to `self`, rounded toward zero.
    pub open spec fn spec_whole_seconds_since(self, earlier: Timestamp) -> int {
        let d = self.nanos_since(earlier);
        if d >= 0 {
            d / 1_000_000_000
        } else {
            -((-d) / 1_000_000_000)
        }
    }

    /// The present instant, by the system clock.
    pub fn now() -> Timestamp {
        system_now()
    }

    pub fn new(secs: i64, nanos: u32) -> (t: Timestamp)
        ensures
            t == (Timestamp { secs, nanos }),
    {
        Timestamp { secs, nanos }
    }

    fn nanos_between(&self, earlier: &Timestamp) -> (d: i128)
        ensures
            d == self.nanos_since(*earlier),
    {
        let whole: i128 = self.secs as i128 - earlier.secs as i128;
        let part: i128 = self.nanos as i128 - earlier.nanos as i128;
        whole * 1_000_000_000 + part
    }

    /// `self - earlier >= seconds`, compared to the nanosecond.
    pub fn at_least_seconds(&self, earlier: &Timestamp, seconds: i64) -> (b: bool)
        ensures
            b == self.spec_at_least(*earlier, seconds_span(seconds as int)),
    {
        self.nanos_between(earlier) >= seconds as i128 * 1_000_000_000
    }

    /// `self - earlier >= minutes`, compared to the nanosecond.
    pub fn at_least_minutes(&self, earlier: &Timestamp, minutes: i64) -> (b: bool)
        ensures
            b == self.spec_at_least(*earlier, minutes_span(minutes as int)),
    {
        self.nanos_between(earlier) >= minutes as i128 * 60_000_000_000
    }

    /// `self - earlier > seconds`, compared to the nanosecond.
    pub fn more_than_seconds(&self, earlier: &Timestamp, seconds: i64) -> (b: bool)
        ensures
            b == self.spec_more_than(*earlier, seconds_span(seconds as int)),
    {
        self.nanos_between(earlier) > seconds as i128 * 1_000_000_000
    }

    /// Whole seconds from `earlier` to `self`, rounded toward zero and held
    /// within the range of `i64`.
    pub fn whole_seconds_since(&self, earlier: &Timestamp) -> (s: i64)
        ensures
            s == clamp_i64(self.spec_whole_seconds_since(*earlier)),
    {
        let d: i128 = self.nanos_between(earlier);
        let q: i128 = if d >= 0 {
            d / 1_000_000_000
        } else {
            -((-d) / 1_000_000_000)
        };
        if q > i64::MAX as i128 {
            i64::MAX
        } else if q < i64::MIN as i128 {
            i64::MIN
        } else {
            q as i64
        }
    }
}

/// The nanoseconds in `seconds` seconds.
pub open spec fn seconds_span(seconds: int) -> int {
    seconds * 1_000_000_000
}

/// The nanoseconds in `minutes` minutes.
pub open spec fn minutes_span(minutes: int) -> int {
    minutes * 60_000_000_000
}

/// `v` held within the range of `i64`.
pub open spec fn clamp_i64(v: int) -> int {
    if v > i64::MAX {
        i64::MAX as int
    } else if v < i64::MIN {
        i64::MIN as int
    } else {
        v
    }
}

/// Reads the system clock through `chrono::Utc::now` and splits the instant
/// into seconds and sub-second nanoseconds. Nothing is claimed of the value:
/// it is whatever the clock says.
#[verifier::external_body]
pub(crate) fn system_now() -> (t: Timestamp) {
    let t = chrono::Utc::now();
    Timestamp { secs: t.timestamp(), nanos: t.timestamp_subsec_nanos() }
}

} // verus!
