//! Wall-clock measurement and frame deadlines.
//!
//! A clock reads the time as nanoseconds since its origin (the instant it was created); it
//! measures from its start, which restarting moves to the reading taken.
use std::time::{Duration, Instant};
use vstd::prelude::*;

verus! {

/// Makes `std::time::Instant` usable in fields; its contents stay opaque.
#[verifier::external_type_specification]
#[verifier::external_body]
pub struct ExInstant(Instant);

/// The total whole nanoseconds of a duration, as `Duration::as_nanos` gives them.
pub uninterp spec fn duration_nanos(d: Duration) -> u128;

/// The duration of `n` nanoseconds, as `Duration::from_nanos` makes it.
pub uninterp spec fn nanos_duration(n: u64) -> Duration;

/// Calls `Instant::now`. Nothing is claimed of the result: it is the time of the call.
#[verifier::external_body]
fn instant_now() -> Instant {
    Instant::now()
}

/// Calls `<Instant as Sub>::sub` (`later - earlier`, zero when `earlier` is later). Nothing is
/// claimed of the result: nothing here states what an instant holds.
#[verifier::external_body]
fn instant_since(later: Instant, earlier: Instant) -> Duration {
    later - earlier
}

/// Calls `Duration::as_nanos`. Claims the result is [`duration_nanos`] of the duration.
#[verifier::external_body]
fn as_nanos(d: &Duration) -> (r: u128)
    ensures
        r == duration_nanos(*d),
{
    d.as_nanos()
}

/// Calls `Duration::from_nanos`. Claims the result is [`nanos_duration`] of `n`, and that it holds
/// exactly `n` nanoseconds.
#[verifier::external_body]
fn from_nanos(n: u64) -> (r: Duration)
    ensures
        r == nanos_duration(n),
        duration_nanos(r) == n as u128,
{
    Duration::from_nanos(n)
}

/// The nanoseconds from `start` to the reading `now`; zero when `now` is before `start`.
pub open spec fn elapsed_at_spec(start: u64, now: u64) -> u64 {
    if now >= start {
        (now - start) as u64
    } else {
        0
    }
}

/// Measures the time elapsed since it was started or last restarted.
pub struct Clock {
    origin: Instant,
    start: u64,
}

impl View for Clock {
    type V = u64;

    /// The start, in nanoseconds since the origin.
    closed spec fn view(&self) -> u64 {
        self.start
    }
}

impl Clock {
    /// The instant that readings count from.
    pub closed spec fn origin(&self) -> Instant {
        self.origin
    }

    /// The instant that readings count from.
    pub fn origin_instant(&self) -> (r: Instant)
        ensures
            r == self.origin(),
    {
        self.origin
    }

    /// A clock started now: its origin is the time of the call and its start is 0.
    pub fn new() -> (r: Self)
        ensures
            r@ == 0,
    {
        Clock { origin: instant_now(), start: 0 }
    }

    /// Reads the time: the nanoseconds from the origin to now (`u64::MAX` after some 584 years).
    /// Nothing is stated of the reading: it is the time of the call.
    pub fn now_nanos(&self) -> u64 {
        let since = instant_since(instant_now(), self.origin);
        let nanos = as_nanos(&since);
        if nanos > u64::MAX as u128 {
            u64::MAX
        } else {
            nanos as u64
        }
    }

    /// The nanoseconds from the start to the reading `now` (zero when `now` is before it).
    pub fn elapsed_at(&self, now: u64) -> (r: u64)
        ensures
            r == elapsed_at_spec(self@, now),
    {
        if now >= self.start {
            now - self.start
        } else {
            0
        }
    }

    /// Returns the nanoseconds from the start to the reading `now` and starts again from `now`.
    pub fn restart_at(&mut self, now: u64) -> (r: u64)
        ensures
            r == elapsed_at_spec(old(self)@, now),
            final(self)@ == now,
            final(self).origin() == old(self).origin(),
    {
        let elapsed = self.elapsed_at(now);
        self.start = now;
        elapsed
    }

    /// Reads the time, returns the time elapsed from the start to that reading and starts again
    /// from it.
    pub fn restart(&mut self) -> (r: Duration)
        ensures
            exists|now: u64|
                final(self)@ == now && r == nanos_duration(#[trigger] elapsed_at_spec(old(self)@, now)),
            final(self).origin() == old(self).origin(),
    {
        let now = self.now_nanos();
        let elapsed = self.restart_at(now);
        from_nanos(elapsed)
    }

    /// Reads the time and returns the time elapsed from the start to that reading; the clock is
    /// not changed.
    pub fn elapsed(&self) -> (r: Duration)
        ensures
            exists|now: u64| r == nanos_duration(#[trigger] elapsed_at_spec(self@, now)),
    {
        let now = self.now_nanos();
        from_nanos(self.elapsed_at(now))
    }
}

/// Restarting at readings `now1` and then `now2` returns, in all, the time from the first start to
/// `now2`: the two measured spans join without gap or overlap.
pub proof fn lemma_restarts_add_up(start: u64, now1: u64, now2: u64)
    requires
        start <= now1 <= now2,
    ensures
        elapsed_at_spec(start, now1) + elapsed_at_spec(now1, now2) == elapsed_at_spec(start, now2),
{
}

/// When the next frame is due, in nanoseconds of a clock's readings.
pub struct FrameDeadline {
    next: u64,
}

impl View for FrameDeadline {
    type V = u64;

    closed spec fn view(&self) -> u64 {
        self.next
    }
}

impl FrameDeadline {
    /// A deadline at the reading `now`: the first frame is due at once.
    pub fn new(now: u64) -> (r: Self)
        ensures
            r@ == now,
    {
        FrameDeadline { next: now }
    }

    /// The reading at which the next frame is due.
    pub fn next(&self) -> (r: u64)
        ensures
            r == self@,
    {
        self.next
    }

    /// When the deadline has passed at the reading `now`, the next one is `frame_time` after
    /// `now` and `true` is returned; otherwise nothing changes and `false` is returned.
    pub fn reset_at(&mut self, now: u64, frame_time: u64) -> (r: bool)
        requires
            old(self)@ <= now ==> now + frame_time <= u64::MAX,
        ensures
            r == (old(self)@ <= now),
            final(self)@ == if r { (now + frame_time) as u64 } else { old(self)@ },
    {
        if self.next <= now {
            self.next = now + frame_time;
            true
        } else {
            false
        }
    }

    /// When the deadline has passed at the reading `now`, it moves `step` further on (keeping
    /// the cadence) and `true` is returned; otherwise nothing changes and `false` is returned.
    pub fn advance_at(&mut self, now: u64, step: u64) -> (r: bool)
        requires
            old(self)@ <= now ==> old(self)@ + step <= u64::MAX,
        ensures
            r == (old(self)@ <= now),
            final(self)@ == if r { (old(self)@ + step) as u64 } else { old(self)@ },
    {
        if self.next <= now {
            self.next = self.next + step;
            true
        } else {
            false
        }
    }
}

/// One fixed-timestep update: `dt_nanos` more time has passed since the last one. Returns how
/// many updates of `frame_nanos` each to run (one for every whole frame time in `dt_nanos`; the
/// rest is dropped) and the new total time, `total_nanos + dt_nanos`.
pub fn fixed_update_steps(total_nanos: u64, dt_nanos: u64, frame_nanos: u64) -> (r: (u64, u64))
    requires
        frame_nanos > 0,
        total_nanos + dt_nanos <= u64::MAX,
    ensures
        r.0 == dt_nanos / frame_nanos,
        r.1 == total_nanos + dt_nanos,
{
    (dt_nanos / frame_nanos, total_nanos + dt_nanos)
}

} // verus!