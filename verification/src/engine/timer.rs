//! A fixed-interval timer over a monotonic clock.

use vstd::prelude::*;
use std::time::{Duration, Instant};

verus! {

/// `std::time::Instant`, a reading of the monotonic clock, carried through
/// as an opaque value.
#[verifier::external_type_specification]
#[verifier::external_body]
pub struct ExInstant(Instant);

/// Mathematical value of a [`Timer`]: the interval and the clock reading
/// of the last positive tick, both in nanoseconds.
pub struct TimerView {
    /// Least time between two positive ticks.
    pub interval: nat,
    /// Clock reading at which the timer last fired.
    pub previous: nat,
}

/// The time that passes from clock reading `from` to clock reading `to`.
/// A reading that lies before the earlier one counts as no time passed.
pub open spec fn elapsed(from: nat, to: nat) -> nat {
    if to >= from {
        (to - from) as nat
    } else {
        0
    }
}

impl TimerView {
    /// Whether the timer fires at clock reading `now`: at least the
    /// interval has passed since it last fired.
    pub open spec fn fires(self, now: nat) -> bool {
        elapsed(self.previous, now) >= self.interval
    }

    /// The timer after a tick at clock reading `now`: the baseline moves to
    /// `now` when the timer fires and stays otherwise.
    pub open spec fn after(self, now: nat) -> TimerView {
        if self.fires(now) {
            TimerView { previous: now, ..self }
        } else {
            self
        }
    }

    /// The timer after ticks at each of the clock readings `nows` in turn.
    pub open spec fn after_all(self, nows: Seq<nat>) -> TimerView
        decreases nows.len(),
    {
        if nows.len() == 0 {
            self
        } else {
            self.after_all(nows.drop_last()).after(nows.last())
        }
    }
}

/// A timer that fires, then stays shut over the readings `between`, then
/// fires again at `second`, has let at least its interval pass between the
/// two firings.
pub proof fn lemma_ticks_apart(t: TimerView, first: nat, between: Seq<nat>, second: nat)
    requires
        t.fires(first),
        forall|i: int|
            0 <= i < between.len() ==> !(#[trigger] t.after(first).after_all(
                between.take(i),
            )).fires(between[i]),
        t.after(first).after_all(between).fires(second),
    ensures
        elapsed(first, second) >= t.interval,
{
    lemma_shut_timer_stays(t.after(first), between);
}

/// A timer that stays shut over every one of the readings `nows` is
/// unchanged after them.
pub proof fn lemma_shut_timer_stays(t: TimerView, nows: Seq<nat>)
    requires
        forall|i: int| 0 <= i < nows.len() ==> !(#[trigger] t.after_all(nows.take(i))).fires(nows[i]),
    ensures
        t.after_all(nows) == t,
    decreases nows.len(),
{
    if nows.len() > 0 {
        let shorter = nows.drop_last();
        assert forall|i: int| 0 <= i < shorter.len() implies !(#[trigger] t.after_all(
            shorter.take(i),
        )).fires(shorter[i]) by {
            assert(shorter.take(i) =~= nows.take(i));
        }
        lemma_shut_timer_stays(t, shorter);
        assert(nows.take(nows.len() - 1) =~= shorter);
    }
}

/// A timer that opens at most once per interval.
pub struct Timer {
    duration: u128,
    previous_time: u128,
    origin: Instant,
}

impl View for Timer {
    type V = TimerView;

    closed spec fn view(&self) -> TimerView {
        TimerView { interval: self.duration as nat, previous: self.previous_time as nat }
    }
}

impl Timer {
    /// A timer with the given interval in nanoseconds, whose clock starts
    /// at zero now.
    pub fn from_nanos(interval: u128) -> (timer: Timer)
        ensures
            timer@ == (TimerView { interval: interval as nat, previous: 0 }),
    {
        Timer { duration: interval, previous_time: 0, origin: clock_start() }
    }

    /// The configured interval in nanoseconds.
    pub fn interval_nanos(&self) -> (interval: u128)
        ensures
            interval == self@.interval,
    {
        self.duration
    }

    /// Ticks the timer at the clock reading `now`, in nanoseconds.
    ///
    /// Returns `true` and moves the baseline to `now` when at least the
    /// interval has passed since the timer last fired; otherwise returns
    /// `false` and changes nothing.
    pub fn tick_at(&mut self, now: u128) -> (fired: bool)
        ensures
            fired == old(self)@.fires(now as nat),
            final(self)@ == old(self)@.after(now as nat),
    {
        let elapsed: u128 = if now >= self.previous_time {
            now - self.previous_time
        } else {
            0
        };
        if elapsed < self.duration {
            false
        } else {
            self.previous_time = now;
            true
        }
    }

    /// Ticks the timer at the current reading of the monotonic clock.
    ///
    /// Whatever the clock says, the outcome is that of [`Timer::tick_at`]
    /// for some reading.
    pub fn tick(&mut self) -> (fired: bool)
        ensures
            exists|now: nat|
                fired == #[trigger] old(self)@.fires(now) && final(self)@ == old(self)@.after(now),
            !fired ==> final(self)@ == old(self)@,
            fired ==> elapsed(old(self)@.previous, final(self)@.previous) >= old(self)@.interval,
            final(self)@.interval == old(self)@.interval,
    {
        let since_start = clock_elapsed(&self.origin);
        let now: u128 = duration_nanos(&since_start);
        self.tick_at(now)
    }
}

/// Reads the monotonic clock with `Instant::now()`. Nothing is claimed of
/// the reading.
#[verifier::external_body]
fn clock_start() -> (origin: Instant) {
    Instant::now()
}

/// The time that has passed since `origin`, by `Instant::elapsed`. Nothing
/// is claimed of the result.
#[verifier::external_body]
fn clock_elapsed(origin: &Instant) -> (elapsed: Duration) {
    origin.elapsed()
}

/// The whole number of nanoseconds in a duration, by `Duration::as_nanos`.
/// Nothing is claimed of the number.
#[verifier::external_body]
fn duration_nanos(duration: &Duration) -> (nanos: u128) {
    duration.as_nanos()
}

} // verus!
