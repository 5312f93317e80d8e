//! Spans of time and points in time, counted in nanoseconds.
use core::ops::{Add, Sub};
use vstd::prelude::*;
use crate::text;

verus! {

/// A span of time.
#[derive(Clone, Copy, Debug, PartialEq, Eq, Structural, PartialOrd, Ord, Hash)]
pub struct Duration {
    /// The length in nanoseconds.
    pub nanos: u128,
}

/// A point in time, in nanoseconds since the epoch of whoever produced it.
#[derive(Clone, Copy, Debug, PartialEq, Eq, Structural, PartialOrd, Ord, Hash)]
pub struct Timestamp {
    /// Nanoseconds since the epoch.
    pub nanos: u128,
}

impl Duration {
    /// No time at all.
    pub fn zero() -> (r: Duration)
        ensures
            r.nanos == 0,
    {
        Duration { nanos: 0 }
    }

    /// The span shown with the largest unit that it fills; `seconds` is the span in
    /// seconds, to three decimals.
    pub open spec fn readable(self, seconds: Seq<char>) -> Seq<char> {
        if self.nanos >= 1_000_000_000 {
            seconds + "s"@
        } else if self.nanos >= 1_000_000 {
            text::decimal((self.nanos / 1_000_000) as nat) + "ms"@
        } else if self.nanos >= 1_000 {
            text::decimal((self.nanos / 1_000) as nat) + "µs"@
        } else {
            text::decimal(self.nanos as nat) + "ns"@
        }
    }

    /// A span of nanoseconds.
    pub fn from_nanos(nanos: u128) -> (r: Duration)
        ensures
            r.nanos == nanos,
    {
        Duration { nanos }
    }

    /// A span of milliseconds.
    pub fn from_millis(millis: u64) -> (r: Duration)
        ensures
            r.nanos == millis * 1_000_000,
    {
        Duration { nanos: millis as u128 * 1_000_000 }
    }

    /// A span of seconds.
    pub fn from_secs(secs: u64) -> (r: Duration)
        ensures
            r.nanos == secs * 1_000_000_000,
    {
        Duration { nanos: secs as u128 * 1_000_000_000 }
    }

    /// The span in nanoseconds.
    pub fn as_nanos(self) -> (r: u128)
        ensures
            r == self.nanos,
    {
        self.nanos
    }

    /// The span in whole milliseconds.
    pub fn as_millis(self) -> (r: u128)
        ensures
            r == self.nanos / 1_000_000,
    {
        self.nanos / 1_000_000
    }

    /// Whether the span is empty.
    pub fn is_zero(self) -> (r: bool)
        ensures
            r == (self.nanos == 0),
    {
        self.nanos == 0
    }

    /// The span shown with the largest unit that it fills. `seconds` is the span in
    /// seconds to three decimals; it is shown from one second up.
    pub fn readable_text(self, seconds: &str) -> (r: String)
        ensures
            r@ == self.readable(seconds@),
    {
        if self.nanos >= 1_000_000_000 {
            let mut t = seconds.to_owned();
            t.append("s");
            t
        } else if self.nanos >= 1_000_000 {
            let mut t = text::decimal_text(self.nanos / 1_000_000);
            t.append("ms");
            t
        } else if self.nanos >= 1_000 {
            let mut t = text::decimal_text(self.nanos / 1_000);
            t.append("µs");
            t
        } else {
            let mut t = text::decimal_text(self.nanos);
            t.append("ns");
            t
        }
    }
}

impl Default for Duration {
    fn default() -> (r: Duration)
        ensures
            r.nanos == 0,
    {
        Duration { nanos: 0 }
    }
}

/// Nanoseconds since the Unix epoch, from `std::time::SystemTime::elapsed`; nothing where
/// that reports an error, as it does when the clock stands before the epoch. The reading
/// depends on the machine's clock, so nothing is claimed of it.
#[verifier::external_body]
fn clock_nanos() -> (r: Option<u128>) {
    match std::time::UNIX_EPOCH.elapsed() {
        Ok(since) => Some(since.as_nanos()),
        Err(_) => None,
    }
}

/// Whether the machine's clock may give a reading.
pub closed spec fn clock_shows(reading: Option<u128>) -> bool {
    call_ensures(clock_nanos, (), reading)
}

impl Timestamp {
    /// The epoch itself.
    pub fn zero() -> (r: Timestamp)
        ensures
            r.nanos == 0,
    {
        Timestamp { nanos: 0 }
    }

    /// A point given in nanoseconds.
    pub fn from_nanos(nanos: u128) -> (r: Timestamp)
        ensures
            r.nanos == nanos,
    {
        Timestamp { nanos }
    }

    /// A point given in milliseconds.
    pub fn from_millis(millis: u64) -> (r: Timestamp)
        ensures
            r.nanos == millis * 1_000_000,
    {
        Timestamp { nanos: millis as u128 * 1_000_000 }
    }

    /// The point in nanoseconds.
    pub fn as_nanos(self) -> (r: u128)
        ensures
            r == self.nanos,
    {
        self.nanos
    }

    /// The point that a clock shows: its reading in nanoseconds since the epoch, or the
    /// epoch itself where the clock stands before it and has no reading.
    pub fn from_reading(reading: Option<u128>) -> (r: Timestamp)
        ensures
            r.nanos == match reading {
                Some(nanos) => nanos,
                None => 0,
            },
    {
        match reading {
            Some(nanos) => Timestamp::from_nanos(nanos),
            None => Timestamp::zero(),
        }
    }

    /// The machine's wall clock, counted from the Unix epoch. What it reads is up to
    /// the machine; [`Timestamp::from_reading`] says what is made of the reading.
    pub fn now() -> (r: Timestamp)
        ensures
            exists|reading: Option<u128>| #[trigger]
                clock_shows(reading) && r.nanos == match reading {
                    Some(nanos) => nanos,
                    None => 0,
                },
    {
        let reading: Option<u128> = clock_nanos();
        assert(clock_shows(reading));
        Timestamp::from_reading(reading)
    }

    /// The time since `earlier`, or nothing where `earlier` is later.
    pub fn saturating_since(self, earlier: Timestamp) -> (r: Duration)
        ensures
            r.nanos == if self.nanos >= earlier.nanos {
                self.nanos - earlier.nanos
            } else {
                0
            },
    {
        Duration { nanos: self.nanos.saturating_sub(earlier.nanos) }
    }

    /// The text of the point, in whole milliseconds.
    pub open spec fn words(self) -> Seq<char> {
        "Timestamp("@ + text::decimal((self.nanos / 1_000_000) as nat) + "ms)"@
    }

    /// The text of the point, in whole milliseconds.
    pub fn to_string(&self) -> (r: String)
        ensures
            r@ == self.words(),
    {
        let mut t = "Timestamp(".to_owned();
        t.append(text::decimal_text(self.nanos / 1_000_000).as_str());
        t.append("ms)");
        t
    }
}

impl Default for Timestamp {
    fn default() -> (r: Timestamp)
        ensures
            r.nanos == 0,
    {
        Timestamp { nanos: 0 }
    }
}

impl Sub<Timestamp> for Timestamp {
    type Output = Duration;

    fn sub(self, rhs: Timestamp) -> (r: Duration) {
        Duration { nanos: self.nanos - rhs.nanos }
    }
}

impl vstd::std_specs::ops::SubSpecImpl<Timestamp> for Timestamp {
    open spec fn obeys_sub_spec() -> bool {
        true
    }

    open spec fn sub_req(self, rhs: Timestamp) -> bool {
        rhs.nanos <= self.nanos
    }

    open spec fn sub_spec(self, rhs: Timestamp) -> Duration {
        Duration { nanos: (self.nanos - rhs.nanos) as u128 }
    }
}

impl Add<Duration> for Timestamp {
    type Output = Timestamp;

    fn add(self, rhs: Duration) -> (r: Timestamp) {
        Timestamp { nanos: self.nanos + rhs.nanos }
    }
}

impl vstd::std_specs::ops::AddSpecImpl<Duration> for Timestamp {
    open spec fn obeys_add_spec() -> bool {
        true
    }

    open spec fn add_req(self, rhs: Duration) -> bool {
        self.nanos + rhs.nanos <= u128::MAX
    }

    open spec fn add_spec(self, rhs: Duration) -> Timestamp {
        Timestamp { nanos: (self.nanos + rhs.nanos) as u128 }
    }
}

/// Moving a point forward by a span and measuring from the start gives the span back.
pub proof fn added_span_is_measured(t: Timestamp, d: Duration)
    requires
        t.nanos + d.nanos <= u128::MAX,
    ensures
        vstd::std_specs::ops::SubSpec::sub_spec(
            vstd::std_specs::ops::AddSpec::add_spec(t, d),
            t,
        ) == d,
{
}

} // verus!
