use vstd::prelude::*;

verus! {

/// A span of time, in nanoseconds.
#[derive(Clone, Copy, Debug, PartialEq, Eq, Structural)]
pub struct Duration {
    pub nanos: u128,
}

/// A point in time, in nanoseconds on the library's clock.
#[derive(Clone, Copy, Debug, PartialEq, Eq, Structural)]
pub struct Instant {
    pub nanos: u64,
}

/// The system clock, `std::time::SystemTime`, held as an opaque value.
#[verifier::external_type_specification]
#[verifier::external_body]
pub struct ExSystemTime(std::time::SystemTime);

/// The system clock's current time, from `std::time::SystemTime::now`.
///
/// Trusted for nothing: no clause speaks of the value, which depends on the
/// time of the call.
#[verifier::external_body]
fn system_now() -> std::time::SystemTime {
    std::time::SystemTime::now()
}

/// The span from the Unix epoch to `t`, from `SystemTime::duration_since`
/// (`None` where it reports that `t` is before the epoch).
///
/// Trusted for nothing: the span of an opaque time is not stated.
#[verifier::external_body]
fn since_epoch(t: &std::time::SystemTime) -> Option<core::time::Duration> {
    t.duration_since(std::time::UNIX_EPOCH).ok()
}

/// The whole nanoseconds of `d`, from `core::time::Duration::as_nanos`.
///
/// Trusted for nothing: the length of an opaque span is not stated.
#[verifier::external_body]
fn duration_nanos(d: &core::time::Duration) -> u128 {
    d.as_nanos()
}

/// Nanoseconds elapsed since the Unix epoch on the system clock (truncated
/// to 64 bits); 0 when the clock is set before the epoch.
fn clock_nanos() -> u64 {
    let now = system_now();
    match since_epoch(&now) {
        Some(d) => duration_nanos(&d) as u64,
        None => 0,
    }
}

impl Duration {
    /// `secs` seconds.
    pub fn from_secs(secs: u64) -> (d: Duration)
        ensures
            d.nanos == secs * 1_000_000_000,
    {
        Duration { nanos: secs as u128 * 1_000_000_000 }
    }

    /// `ms` milliseconds.
    pub fn from_millis(ms: u64) -> (d: Duration)
        ensures
            d.nanos == ms * 1_000_000,
    {
        Duration { nanos: ms as u128 * 1_000_000 }
    }

    /// Whole milliseconds in the span.
    pub fn as_millis(&self) -> (ms: u128)
        ensures
            ms == self.nanos / 1_000_000,
    {
        self.nanos / 1_000_000
    }
}

/// Time from `earlier` to `later`, zero when `earlier` is not before `later`.
pub open spec fn elapsed_nanos(later: Instant, earlier: Instant) -> u64 {
    if later.nanos >= earlier.nanos {
        (later.nanos - earlier.nanos) as u64
    } else {
        0
    }
}

impl Instant {
    /// The current time of the clock.
    pub fn now() -> (t: Instant) {
        Instant { nanos: clock_nanos() }
    }

    /// Time elapsed from `earlier` to `self`; zero when `earlier` is later.
    pub fn duration_since(&self, earlier: Instant) -> (d: Duration)
        ensures
            d.nanos == elapsed_nanos(*self, earlier),
    {
        if self.nanos >= earlier.nanos {
            Duration { nanos: (self.nanos - earlier.nanos) as u128 }
        } else {
            Duration { nanos: 0 }
        }
    }
}

} // verus!
