//! Pause state of the blocker, on a monotonic clock.
use std::time::{Duration, Instant};
use vstd::prelude::*;

verus! {

/// The largest number of nanoseconds a `Duration` can hold: `u64::MAX`
/// seconds and 999_999_999 nanoseconds.
pub const MAX_DURATION_NANOS: u128 = 18_446_744_073_709_551_615_999_999_999u128;

/// The largest number of nanoseconds a `Duration` can hold.
pub open spec fn max_duration_nanos() -> u128 {
    MAX_DURATION_NANOS
}

/// Nanoseconds in one second.
pub const NANOS_PER_SEC: u128 = 1_000_000_000;

/// `std::time::Instant`, a reading of the monotonic clock (opaque here).
#[verifier::external_type_specification]
#[verifier::external_body]
pub struct ExInstant(Instant);

/// What `Duration::as_nanos` returns for a duration.
pub uninterp spec fn nanos_of(d: Duration) -> u128;

/// `Instant::now`: a reading of the monotonic clock.
#[verifier::external_body]
fn instant_now() -> Instant {
    Instant::now()
}

/// `Instant::elapsed`: the time since the instant, on the monotonic clock.
#[verifier::external_body]
fn instant_elapsed(origin: &Instant) -> Duration {
    origin.elapsed()
}

/// `Duration::as_nanos`: the duration's length, at most `max_duration_nanos()`.
#[verifier::external_body]
fn duration_nanos(d: &Duration) -> (r: u128)
    ensures
        r == nanos_of(*d),
        r <= max_duration_nanos(),
{
    d.as_nanos()
}

/// A monotonic clock that counts nanoseconds from the moment it was made.
#[derive(Debug)]
pub struct MonotonicClock {
    origin: Instant,
}

impl MonotonicClock {
    /// Starts a clock at the current instant.
    pub fn new() -> (c: MonotonicClock) {
        MonotonicClock { origin: instant_now() }
    }

    /// Nanoseconds since the clock was made.
    pub fn now_nanos(&self) -> (r: u128)
        ensures
            r <= max_duration_nanos(),
    {
        duration_nanos(&instant_elapsed(&self.origin))
    }
}

/// The clock time at which a pause of `duration` started at `now` ends.
pub open spec fn pause_deadline(now: u128, duration: u128) -> u128 {
    (now + duration) as u128
}

/// Blocking is active at `now` unless a pause runs past `now`.
pub open spec fn active_at(paused_until: Option<u128>, now: u128) -> bool {
    match paused_until {
        Some(until) => !(now < until),
        None => true,
    }
}

/// Whole seconds left of a pause at `now`, as a `Duration` counts them.
pub open spec fn remaining_secs_at(paused_until: Option<u128>, now: u128) -> Option<u64> {
    match paused_until {
        Some(until) => if until > now {
            let secs = ((until - now) as u128) / NANOS_PER_SEC;
            Some(if secs > u64::MAX { u64::MAX } else { secs as u64 })
        } else {
            None
        },
        None => None,
    }
}

/// Whether blocking is active, or paused until some point of a monotonic clock.
#[derive(Debug)]
pub struct AppState {
    clock: MonotonicClock,
    blocking_paused_until: Option<u128>,
}

impl AppState {
    /// The clock time, in nanoseconds, until which blocking is paused, if any.
    pub closed spec fn paused_until(&self) -> Option<u128> {
        self.blocking_paused_until
    }

    /// A state with blocking active.
    pub fn new() -> (s: AppState)
        ensures
            s.paused_until() is None,
    {
        AppState { clock: MonotonicClock::new(), blocking_paused_until: None }
    }

    /// Nanoseconds on this state's clock.
    pub fn now_nanos(&self) -> (r: u128)
        ensures
            r <= max_duration_nanos(),
    {
        self.clock.now_nanos()
    }

    /// Whether blocking is active at clock time `now`.
    pub fn is_blocking_active_at(&self, now: u128) -> (r: bool)
        ensures
            r == active_at(self.paused_until(), now),
    {
        match self.blocking_paused_until {
            Some(until) => !(now < until),
            None => true,
        }
    }

    /// Whether blocking is active now.
    pub fn is_blocking_active(&self) -> (r: bool)
        ensures
            exists|now: u128| now <= max_duration_nanos() && r == active_at(self.paused_until(), now),
            self.paused_until() is None ==> r,
    {
        let now = self.now_nanos();
        self.is_blocking_active_at(now)
    }

    /// Pauses blocking from clock time `now` for `duration` nanoseconds.
    pub fn pause_blocking_at(&mut self, now: u128, duration: u128)
        requires
            now + duration <= u128::MAX,
        ensures
            final(self).paused_until() == Some(pause_deadline(now, duration)),
            final(self).paused_until() == Some((now + duration) as u128),
    {
        self.blocking_paused_until = Some(now + duration);
    }

    /// Pauses blocking for `duration` from now.
    pub fn pause_blocking(&mut self, duration: Duration)
        ensures
            exists|now: u128|
                now <= max_duration_nanos() && final(self).paused_until() == Some(
                    #[trigger] pause_deadline(now, nanos_of(duration)),
                ),
    {
        let now = self.now_nanos();
        let d = duration_nanos(&duration);
        self.pause_blocking_at(now, d);
    }

    /// Ends any pause: blocking is active again.
    pub fn resume_blocking(&mut self)
        ensures
            final(self).paused_until() is None,
    {
        self.blocking_paused_until = None;
    }

    /// Whole seconds left of the pause at clock time `now`, if one runs past `now`.
    pub fn get_pause_remaining_secs_at(&self, now: u128) -> (r: Option<u64>)
        ensures
            r == remaining_secs_at(self.paused_until(), now),
    {
        match self.blocking_paused_until {
            Some(until) => {
                if until > now {
                    let secs = (until - now) / NANOS_PER_SEC;
                    if secs > u64::MAX as u128 {
                        Some(u64::MAX)
                    } else {
                        Some(secs as u64)
                    }
                } else {
                    None
                }
            },
            None => None,
        }
    }

    /// Whole seconds left of the current pause, if one is running.
    pub fn get_pause_remaining_secs(&self) -> (r: Option<u64>)
        ensures
            exists|now: u128|
                now <= max_duration_nanos() && r == remaining_secs_at(self.paused_until(), now),
            self.paused_until() is None ==> r is None,
    {
        let now = self.now_nanos();
        self.get_pause_remaining_secs_at(now)
    }
}

impl Default for AppState {
    fn default() -> (s: AppState)
        ensures
            s.paused_until() is None,
    {
        AppState::new()
    }
}

/// A pause of positive length stops blocking at the moment it starts, and
/// blocking is active again once the pause has run out.
pub proof fn pause_holds_until_deadline(now: u128, duration: u128, later: u128)
    requires
        duration > 0,
        now + duration <= u128::MAX,
    ensures
        !active_at(Some((now + duration) as u128), now),
        later >= now + duration ==> active_at(Some((now + duration) as u128), later),
        now <= later < now + duration ==> !active_at(Some((now + duration) as u128), later),
{
}

/// A pause of `duration` started at `now` keeps blocking off at every clock
/// time `t` from `now` until `now + duration`, and only then: before the end
/// the seconds left are the whole seconds from `t` to `now + duration`, and
/// afterwards none are left.
pub proof fn pause_lasts_its_duration(now: u128, duration: u128, t: u128)
    requires
        now + duration <= u128::MAX,
        duration <= max_duration_nanos(),
        now <= t,
    ensures
        active_at(Some(pause_deadline(now, duration)), t) <==> t >= now + duration,
        t < now + duration ==> remaining_secs_at(Some(pause_deadline(now, duration)), t) == Some(
            ((now + duration - t) / (NANOS_PER_SEC as int)) as u64,
        ),
        t >= now + duration ==> remaining_secs_at(Some(pause_deadline(now, duration)), t) is None,
        remaining_secs_at(Some(pause_deadline(now, duration)), now) == (if duration > 0 {
            Some((duration / NANOS_PER_SEC) as u64)
        } else {
            None::<u64>
        }),
{
    if t < now + duration {
        let g = (now + duration - t) as u128;
        assert(g / NANOS_PER_SEC <= u64::MAX) by (nonlinear_arith)
            requires
                g <= duration,
                duration <= max_duration_nanos(),
                NANOS_PER_SEC == 1_000_000_000u128,
                max_duration_nanos() == 18_446_744_073_709_551_615_999_999_999u128,
        ;
    }
    if duration > 0 {
        assert(duration / NANOS_PER_SEC <= u64::MAX) by (nonlinear_arith)
            requires
                duration <= max_duration_nanos(),
                NANOS_PER_SEC == 1_000_000_000u128,
                max_duration_nanos() == 18_446_744_073_709_551_615_999_999_999u128,
        ;
    }
}

/// While a pause runs, the seconds reported left never exceed the pause's
/// length, and they count down as the clock advances.
pub proof fn remaining_never_exceeds_pause(now: u128, duration: u128, t1: u128, t2: u128)
    requires
        now + duration <= u128::MAX,
        duration <= max_duration_nanos(),
        now <= t1 <= t2,
        t2 < now + duration,
    ensures
        remaining_secs_at(Some((now + duration) as u128), t1) is Some,
        remaining_secs_at(Some((now + duration) as u128), t1)->0 <= duration / NANOS_PER_SEC,
        remaining_secs_at(Some((now + duration) as u128), t2)->0 <= remaining_secs_at(
            Some((now + duration) as u128),
            t1,
        )->0,
{
    let until = (now + duration) as u128;
    let g1 = (until - t1) as u128;
    let g2 = (until - t2) as u128;
    assert(g1 / NANOS_PER_SEC <= duration / NANOS_PER_SEC) by (nonlinear_arith)
        requires
            g1 <= duration,
            NANOS_PER_SEC > 0,
    ;
    assert(g2 / NANOS_PER_SEC <= g1 / NANOS_PER_SEC) by (nonlinear_arith)
        requires
            g2 <= g1,
            NANOS_PER_SEC > 0,
    ;
    assert(duration / NANOS_PER_SEC <= u64::MAX) by (nonlinear_arith)
        requires
            duration <= max_duration_nanos(),
            NANOS_PER_SEC == 1_000_000_000u128,
    ;
}

/// At any clock time, a pause has seconds left exactly while blocking is
/// inactive.
pub proof fn remaining_agrees_with_active(paused_until: Option<u128>, now: u128)
    ensures
        remaining_secs_at(paused_until, now) is Some <==> !active_at(paused_until, now),
{
}

/// Resuming ends a pause at every clock time.
pub proof fn resume_reactivates(now: u128)
    ensures
        active_at(None, now),
        remaining_secs_at(None, now) is None,
{
}

} // verus!
