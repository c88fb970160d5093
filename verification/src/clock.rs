//! The clock: one running or paused timer whose elapsed time survives
//! pauses and shrinks when part of it is committed to the ledger.

use vstd::prelude::*;

verus! {

/// A timer that is either running or paused. Instants are whole seconds on
/// the time source's scale; durations are whole seconds.
///
/// While running, the elapsed time at an instant `now` is
/// `now - start_instant`; while paused it is
/// `pause_instant - start_instant`, whatever the time.
#[derive(Clone, Copy, Debug)]
pub struct TimerClock {
    pub is_running: bool,
    pub start_instant: i64,
    pub pause_instant: i64,
}

impl TimerClock {
    /// A paused clock never shows negative time.
    pub open spec fn wf(&self) -> bool {
        !self.is_running ==> self.start_instant <= self.pause_instant
    }

    /// The elapsed time can be read at `now`: a running clock was not
    /// started after `now`. A paused clock can be read at any time.
    pub open spec fn readable_at(&self, now: i64) -> bool {
        self.is_running ==> self.start_instant <= now
    }

    /// The clock can change between running and paused at `now`. A running
    /// clock can pause at any instant from its start on. A paused clock can
    /// resume at any instant, earlier than its pause too, as long as the
    /// start that resuming moves to can be represented.
    pub open spec fn switchable_at(&self, now: i64) -> bool {
        if self.is_running {
            self.start_instant <= now
        } else {
            self.start_instant + (now - self.pause_instant) >= i64::MIN
        }
    }

    /// Elapsed seconds at `now`.
    pub open spec fn elapsed_at(&self, now: i64) -> int {
        if self.is_running {
            now - self.start_instant
        } else {
            self.pause_instant - self.start_instant
        }
    }

    /// What reading the clock at `now` gives: the elapsed seconds, or nothing
    /// where the clock cannot be read then.
    pub open spec fn reading_at(&self, now: i64) -> Option<u64> {
        if self.readable_at(now) {
            Some(self.elapsed_at(now) as u64)
        } else {
            None
        }
    }

    /// The clock after a start/stop at `now`. Pausing records `now`;
    /// resuming moves the start forward by the time spent paused.
    pub open spec fn toggled_at(&self, now: i64) -> TimerClock {
        if self.is_running {
            TimerClock { is_running: false, start_instant: self.start_instant, pause_instant: now }
        } else {
            TimerClock {
                is_running: true,
                start_instant: (self.start_instant + (now - self.pause_instant)) as i64,
                pause_instant: self.pause_instant,
            }
        }
    }

    /// The clock after `duration` seconds were taken out of its elapsed time.
    pub open spec fn committed(&self, duration: u64) -> TimerClock {
        if self.is_running {
            TimerClock {
                is_running: true,
                start_instant: (self.start_instant + duration) as i64,
                pause_instant: self.pause_instant,
            }
        } else {
            TimerClock {
                is_running: false,
                start_instant: self.start_instant,
                pause_instant: (self.pause_instant - duration) as i64,
            }
        }
    }

    /// The clock after a reset at `now`: no elapsed time, run state kept.
    pub open spec fn reset_to(&self, now: i64) -> TimerClock {
        TimerClock { is_running: self.is_running, start_instant: now, pause_instant: now }
    }

    /// A paused clock with no elapsed time.
    pub fn new(now: i64) -> (clock: TimerClock)
        ensures
            clock == (TimerClock { is_running: false, start_instant: now, pause_instant: now }),
            clock.wf(),
            clock.elapsed_at(now) == 0,
    {
        TimerClock { is_running: false, start_instant: now, pause_instant: now }
    }

    /// A paused clock that shows `elapsed` seconds, as restored from a saved
    /// state. `None` where an instant `elapsed` seconds before `now` cannot
    /// be represented.
    pub fn paused_with(now: i64, elapsed: u64) -> (clock: Option<TimerClock>)
        ensures
            match clock {
                Some(c) => now - elapsed >= i64::MIN && c == (TimerClock {
                    is_running: false,
                    start_instant: (now - elapsed) as i64,
                    pause_instant: now,
                }) && c.wf() && c.elapsed_at(now) == elapsed,
                None => now - elapsed < i64::MIN,
            },
    {
        let start: i128 = now as i128 - elapsed as i128;
        if start < i64::MIN as i128 {
            None
        } else {
            Some(TimerClock { is_running: false, start_instant: start as i64, pause_instant: now })
        }
    }

    /// Whether the clock is well formed.
    pub fn is_valid(&self) -> (valid: bool)
        ensures
            valid == self.wf(),
    {
        self.is_running || self.start_instant <= self.pause_instant
    }

    /// Whether the clock is running.
    pub fn is_running(&self) -> (running: bool)
        ensures
            running == self.is_running,
    {
        self.is_running
    }

    /// Whether the elapsed time can be read at `now`.
    pub fn is_readable_at(&self, now: i64) -> (readable: bool)
        ensures
            readable == self.readable_at(now),
    {
        !self.is_running || self.start_instant <= now
    }

    /// Whether the clock can be started or stopped at `now`.
    pub fn is_switchable_at(&self, now: i64) -> (switchable: bool)
        ensures
            switchable == self.switchable_at(now),
    {
        if self.is_running {
            self.start_instant <= now
        } else {
            let resumed: i128 = self.start_instant as i128 + (now as i128
                - self.pause_instant as i128);
            resumed >= i64::MIN as i128
        }
    }

    /// Elapsed seconds at `now`. Reading changes nothing.
    pub fn current_elapsed_at(&self, now: i64) -> (elapsed: u64)
        requires
            self.wf(),
            self.readable_at(now),
        ensures
            elapsed == self.elapsed_at(now),
    {
        if self.is_running {
            (now as i128 - self.start_instant as i128) as u64
        } else {
            (self.pause_instant as i128 - self.start_instant as i128) as u64
        }
    }

    /// Elapsed seconds at `now`, or `None` where the clock runs and was
    /// started after `now`.
    pub fn read_at(&self, now: i64) -> (elapsed: Option<u64>)
        requires
            self.wf(),
        ensures
            elapsed == self.reading_at(now),
    {
        if self.is_readable_at(now) {
            Some(self.current_elapsed_at(now))
        } else {
            None
        }
    }

    /// Starts a paused clock or pauses a running one. The elapsed time at
    /// `now` is the same before and after.
    pub fn toggle_start_stop_at(&mut self, now: i64)
        requires
            old(self).wf(),
            old(self).switchable_at(now),
        ensures
            *final(self) == old(self).toggled_at(now),
            final(self).wf(),
            final(self).is_running == !old(self).is_running,
            final(self).readable_at(now),
            final(self).elapsed_at(now) == old(self).elapsed_at(now),
    {
        if self.is_running {
            self.pause_instant = now;
        } else {
            let resumed: i128 = self.start_instant as i128 + (now as i128
                - self.pause_instant as i128);
            self.start_instant = resumed as i64;
        }
        self.is_running = !self.is_running;
    }

    /// Sets the elapsed time to zero at `now` and keeps the run state.
    pub fn reset_at(&mut self, now: i64)
        ensures
            *final(self) == old(self).reset_to(now),
            final(self).wf(),
            final(self).elapsed_at(now) == 0,
    {
        self.start_instant = now;
        self.pause_instant = now;
    }

    /// Takes `duration` seconds out of the elapsed time, without changing
    /// the run state. The caller has made sure that the clock holds that
    /// much at `now`.
    pub fn commit(&mut self, duration: u64, now: i64)
        requires
            old(self).wf(),
            old(self).readable_at(now),
            duration <= old(self).elapsed_at(now),
        ensures
            *final(self) == old(self).committed(duration),
            final(self).wf(),
            final(self).readable_at(now),
            final(self).elapsed_at(now) == old(self).elapsed_at(now) - duration,
    {
        if self.is_running {
            let moved: i128 = self.start_instant as i128 + duration as i128;
            self.start_instant = moved as i64;
        } else {
            let moved: i128 = self.pause_instant as i128 - duration as i128;
            self.pause_instant = moved as i64;
        }
    }
}

/// Pausing and resuming loses no time: where a running clock is paused at
/// `paused_at` and resumed at `resumed_at`, the elapsed time right after
/// resuming is the elapsed time right before pausing. Resuming is possible
/// at every instant from the pause on, and at every earlier one from which
/// the elapsed time can still be counted back.
pub proof fn lemma_pause_resume_keeps_elapsed(clock: TimerClock, paused_at: i64, resumed_at: i64)
    requires
        clock.wf(),
        clock.is_running,
        clock.switchable_at(paused_at),
    ensures
        clock.toggled_at(paused_at).wf(),
        clock.toggled_at(paused_at).elapsed_at(resumed_at) == clock.elapsed_at(paused_at),
        clock.toggled_at(paused_at).switchable_at(resumed_at) <==> resumed_at - clock.elapsed_at(
            paused_at,
        ) >= i64::MIN,
        paused_at <= resumed_at ==> clock.toggled_at(paused_at).switchable_at(resumed_at),
        clock.toggled_at(paused_at).switchable_at(resumed_at) ==> {
            let resumed = clock.toggled_at(paused_at).toggled_at(resumed_at);
            &&& resumed.is_running
            &&& resumed.readable_at(resumed_at)
            &&& resumed.elapsed_at(resumed_at) == clock.elapsed_at(paused_at)
        },
{
}

/// Resuming and later pausing again adds exactly the time run in between:
/// where a paused clock is resumed at `resumed_at` and paused at `paused_at`,
/// the elapsed time grows by `paused_at - resumed_at`.
pub proof fn lemma_resume_pause_adds_run_time(clock: TimerClock, resumed_at: i64, paused_at: i64)
    requires
        clock.wf(),
        !clock.is_running,
        clock.switchable_at(resumed_at),
        resumed_at <= paused_at,
    ensures
        clock.toggled_at(resumed_at).switchable_at(paused_at),
        clock.toggled_at(resumed_at).elapsed_at(resumed_at) == clock.elapsed_at(resumed_at),
        clock.toggled_at(resumed_at).toggled_at(paused_at).elapsed_at(paused_at)
            == clock.elapsed_at(resumed_at) + (paused_at - resumed_at),
{
}

/// While a clock runs, its elapsed time never decreases as time goes on.
pub proof fn lemma_elapsed_monotonic(clock: TimerClock, earlier: i64, later: i64)
    requires
        clock.wf(),
        clock.readable_at(earlier),
        earlier <= later,
    ensures
        clock.readable_at(later),
        0 <= clock.elapsed_at(earlier) <= clock.elapsed_at(later),
{
}

} // verus!
