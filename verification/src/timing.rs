use std::time::{Duration, Instant, SystemTime, SystemTimeError};
use vstd::prelude::*;

verus! {

#[verifier::external_type_specification]
#[verifier::external_body]
pub struct ExInstant(Instant);

#[verifier::external_type_specification]
#[verifier::external_body]
pub struct ExSystemTime(SystemTime);

#[verifier::external_type_specification]
#[verifier::external_body]
pub struct ExSystemTimeError(SystemTimeError);

/// Whole seconds held by a duration.
pub uninterp spec fn duration_whole_secs(d: Duration) -> u64;

/// Nanoseconds of a duration beyond its whole seconds.
pub uninterp spec fn duration_subsec(d: Duration) -> u32;

/// Nanoseconds held by a duration.
pub uninterp spec fn duration_total_nanos(d: Duration) -> u128;

/// The time from `earlier` to `t`, or `None` when `earlier` is later.
pub uninterp spec fn system_time_difference(t: SystemTime, earlier: SystemTime) -> Option<Duration>;

/// `Instant::now`: the current reading of the monotonic clock. Nothing is
/// promised of the value.
#[verifier::external_body]
fn instant_now() -> Instant {
    Instant::now()
}

/// `Instant::elapsed`: the time since `start`. Nothing is promised of the value.
#[verifier::external_body]
fn instant_elapsed(start: &Instant) -> Duration {
    start.elapsed()
}

/// `Duration::as_nanos`: the total number of nanoseconds of the duration,
/// a function of the duration alone.
#[verifier::external_body]
fn duration_as_nanos(d: &Duration) -> (r: u128)
    ensures
        r == duration_total_nanos(*d),
{
    d.as_nanos()
}

/// `Duration::as_secs`: the whole seconds of the duration.
#[verifier::external_body]
fn duration_as_secs(d: &Duration) -> (r: u64)
    ensures
        r == duration_whole_secs(*d),
{
    d.as_secs()
}

/// `Duration::subsec_nanos`: the fractional part of the duration in
/// nanoseconds; std documents that it is below one billion.
#[verifier::external_body]
fn duration_subsec_nanos(d: &Duration) -> (r: u32)
    ensures
        r == duration_subsec(*d),
        r < 1_000_000_000,
{
    d.subsec_nanos()
}

/// `SystemTime::now`: the current wall-clock time. Nothing is promised of it.
#[verifier::external_body]
fn system_time_now() -> SystemTime {
    SystemTime::now()
}

/// `SystemTime::UNIX_EPOCH`: the start of the Unix epoch.
#[verifier::external_body]
fn unix_epoch() -> SystemTime {
    SystemTime::UNIX_EPOCH
}

/// `SystemTime::duration_since`: the time elapsed from `earlier` to `t`, or an
/// error when `earlier` is later than `t`; a function of the two times.
#[verifier::external_body]
fn system_time_duration_since(t: &SystemTime, earlier: &SystemTime) -> (r: Result<Duration, SystemTimeError>)
    ensures
        r is Err <==> system_time_difference(*t, *earlier) is None,
        r matches Ok(d) ==> system_time_difference(*t, *earlier) == Some(d),
{
    t.duration_since(*earlier)
}

/// Milliseconds in a duration given as whole seconds and sub-second
/// nanoseconds, or `None` when that does not fit in a `u64`.
pub open spec fn spec_duration_ms(secs: u64, subsec_nanos: u32) -> Option<u64> {
    let ms = secs * 1000 + subsec_nanos / 1_000_000;
    if ms <= u64::MAX {
        Some(ms as u64)
    } else {
        None
    }
}

/// Milliseconds in `d`: whole seconds times a thousand plus the whole
/// milliseconds of the fractional part; `None` when that overflows a `u64`.
pub fn duration_as_ms(d: &Duration) -> (r: Option<u64>)
    ensures
        r == spec_duration_ms(duration_whole_secs(*d), duration_subsec(*d)),
{
    let secs = duration_as_secs(d);
    let nanos = duration_subsec_nanos(d);
    let frac = (nanos / 1_000_000) as u64;
    match secs.checked_mul(1000) {
        Some(ms) => ms.checked_add(frac),
        None => None,
    }
}

/// Milliseconds from `earlier` to `t`, or `None` when `earlier` is later
/// than `t` or the milliseconds do not fit in a `u64`.
pub open spec fn spec_millis_since(t: SystemTime, earlier: SystemTime) -> Option<u64> {
    match system_time_difference(t, earlier) {
        Some(d) => spec_duration_ms(duration_whole_secs(d), duration_subsec(d)),
        None => None,
    }
}

/// Milliseconds from `earlier` to `t`: the whole milliseconds of the time
/// between them, or `None` when `earlier` is later than `t` or the value does
/// not fit in a `u64`.
pub fn millis_since(t: &SystemTime, earlier: &SystemTime) -> (r: Option<u64>)
    ensures
        r == spec_millis_since(*t, *earlier),
{
    match system_time_duration_since(t, earlier) {
        Ok(d) => duration_as_ms(&d),
        Err(_) => None,
    }
}

/// Milliseconds since the Unix epoch, read from the wall clock. It reads the
/// clock and the epoch and hands both to `millis_since`; what the clock
/// reads is outside any contract, so the result is that of `millis_since`
/// for some pair of times.
fn timestamp() -> (r: Option<u64>)
    ensures
        exists|now: SystemTime, epoch: SystemTime| r == #[trigger] spec_millis_since(now, epoch),
{
    let now = system_time_now();
    let epoch = unix_epoch();
    millis_since(&now, &epoch)
}

/// A stopwatch for one measured span of work.
pub struct Measure {
    name: &'static str,
    start: Instant,
    duration_ns: u64,
}

impl Measure {
    /// The nanoseconds recorded by the last `stop` (zero before it).
    pub closed spec fn nanos(&self) -> u64 {
        self.duration_ns
    }

    /// The name given at the start.
    pub closed spec fn label(&self) -> &'static str {
        self.name
    }

    /// The clock reading taken at the start.
    pub closed spec fn started(&self) -> Instant {
        self.start
    }

    /// Starts measuring now, under the name `name`.
    pub fn start(name: &'static str) -> (m: Measure)
        ensures
            m.nanos() == 0,
            m.label() == name,
    {
        Measure { name, start: instant_now(), duration_ns: 0 }
    }

    /// Records the time elapsed since the start, in nanoseconds (truncated to
    /// 64 bits); the name and the start stay. How much time elapsed depends on
    /// the clock.
    pub fn stop(&mut self)
        ensures
            final(self).label() == old(self).label(),
            final(self).started() == old(self).started(),
            exists|d: Duration| final(self).nanos() == #[trigger] duration_total_nanos(d) as u64,
    {
        let elapsed = instant_elapsed(&self.start);
        let nanos = duration_as_nanos(&elapsed);
        self.duration_ns = nanos as u64;
        assert(self.duration_ns == duration_total_nanos(elapsed) as u64);
    }

    /// The recorded span in whole milliseconds.
    pub fn as_ms(&self) -> (r: u64)
        ensures
            r == self.nanos() / 1_000_000,
    {
        self.duration_ns / 1_000_000
    }

    /// The name given at the start.
    pub fn name(&self) -> (r: &'static str)
        ensures
            r == self.label(),
    {
        self.name
    }
}

/// Whether an interval of more than `interval_ms` has passed between the last
/// update `last` and `now`, given a wall-clock reading `now`; `skip_first`
/// keeps the very first update (when `last` is zero) from counting.
pub open spec fn spec_interval_elapsed(last: u64, now: u64, interval_ms: u64, skip_first: bool) -> bool {
    &&& (if now >= last { now - last } else { 0 }) > interval_ms
    &&& !(skip_first && last == 0)
}

/// Where the limiter stands after a clock reading `now`: at `now` when more
/// than `interval_ms` passed since `last`, else still at `last`.
pub open spec fn spec_limiter_after(last: u64, now: u64, interval_ms: u64) -> u64 {
    if (if now >= last { now - last } else { 0 }) > interval_ms {
        now
    } else {
        last
    }
}

/// Rate limiter over the wall clock: reports when a given interval has passed
/// since the last time it moved forward.
pub struct AtomicInterval {
    last_update: u64,
}

impl AtomicInterval {
    /// The wall-clock time, in ms, of the last update (zero: never).
    pub closed spec fn last(&self) -> u64 {
        self.last_update
    }

    /// A limiter that has never been updated.
    pub fn new() -> (r: AtomicInterval)
        ensures
            r.last() == 0,
    {
        AtomicInterval { last_update: 0 }
    }

    /// Given the clock reading `now`: when more than `interval_ms` passed since
    /// the last update, the limiter moves to `now`; the result says whether it
    /// moved and this was not the very first update (when `skip_first`).
    pub fn should_update_at(&mut self, now: u64, interval_ms: u64, skip_first: bool) -> (r: bool)
        ensures
            r == spec_interval_elapsed(old(self).last(), now, interval_ms, skip_first),
            final(self).last() == (if now.saturating_sub(old(self).last()) > interval_ms {
                now
            } else {
                old(self).last()
            }),
    {
        let last = self.last_update;
        if now.saturating_sub(last) > interval_ms {
            self.last_update = now;
            !(skip_first && last == 0)
        } else {
            false
        }
    }

    /// Reads the wall clock and moves the limiter when more than `interval_ms`
    /// has passed since the last update; the very first update reports
    /// `false`. When the clock cannot be read the limiter stays put. The
    /// outcome is that of `should_update_at` for the clock reading, which the
    /// caller cannot know.
    pub fn should_update(&mut self, interval_ms: u64) -> (r: bool)
        ensures
            r ==> final(self).last() > old(self).last() && old(self).last() != 0,
            !r ==> final(self).last() == old(self).last() || old(self).last() == 0,
            exists|now: u64|
                final(self).last() == #[trigger] spec_limiter_after(old(self).last(), now, interval_ms) && r
                    == spec_interval_elapsed(old(self).last(), now, interval_ms, true),
    {
        let ghost last = self.last_update;
        match timestamp() {
            Some(now) => {
                let r = self.should_update_at(now, interval_ms, true);
                assert(self.last() == spec_limiter_after(last, now, interval_ms));
                r
            },
            None => {
                assert(self.last() == spec_limiter_after(last, last, interval_ms));
                false
            },
        }
    }
}

/// After the limiter moves at `now1`, it does not report again until more
/// than `interval_ms` has passed since `now1`.
pub proof fn law_interval_spacing(last: u64, now1: u64, now2: u64, interval_ms: u64, skip_first: bool)
    requires
        spec_interval_elapsed(last, now1, interval_ms, skip_first),
        now2 <= now1 + interval_ms,
    ensures
        !spec_interval_elapsed(now1, now2, interval_ms, skip_first),
{
}

} // verus!
