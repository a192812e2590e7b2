//! Taking the local keyboard and mouse away from this machine, and giving them
//! back.
//!
//! Read this before changing anything here.
//!
//! Suppression means a global low-level hook returns "handled" instead of
//! passing the event on. While it is on, this process is the only thing that
//! sees the keyboard and mouse. If it stops behaving (a deadlock, a panic in the
//! wrong place, a channel that nobody drains) the computer stops responding to
//! its own input devices, and the user may have no way to click the thing that
//! would fix it.
//!
//! So there are independent ways out, and none of them depend on the code that
//! asked for suppression still working:
//!
//! 1. **It starts off.** Capture begins in observe-only mode; events are
//!    reported and still act locally. Swallowing is a separate call.
//! 2. **A watchdog.** The owner has to keep saying it is alive. Miss the
//!    deadline and the hook releases on its own.
//! 3. **An emergency release.** A key combination is checked inside the hook
//!    itself, so it works even if everything above it is wedged.
//!
//! The rule behind all of it: fail open. A dropped keystroke is an annoyance; a
//! machine that ignores its own keyboard is an emergency.

use vstd::prelude::*;

verus! {

/// A hook that has stopped hearing from the rest of the program for this many
/// milliseconds stops suppressing. If the agent deadlocks while the cursor is on
/// another machine, this is what gives the keyboard back without a reboot.
pub const WATCHDOG_LIMIT_MS: u64 = 2_000;

/// Whether local input is swallowed, and when the owner was last heard from.
#[derive(Clone, Copy, Debug, PartialEq, Eq, Structural)]
pub struct Suppression {
    pub on: bool,
    /// Last time the owner said it was still alive, in milliseconds.
    pub alive_ms: u64,
}

impl Suppression {
    /// Whether an event at `now` is swallowed.
    pub open spec fn swallows(self, now: u64) -> bool {
        self.on && now - self.alive_ms <= WATCHDOG_LIMIT_MS
    }

    /// Suppression after an event at `now`: switched off for good once the owner
    /// has been quiet for too long.
    pub open spec fn after_event(self, now: u64) -> Suppression {
        Suppression { on: self.swallows(now), ..self }
    }

    /// What capture begins with.
    pub open spec fn begun(now: u64) -> Suppression {
        Suppression { on: false, alive_ms: now }
    }

    /// Suppression after somebody asked for it, or asked for it to stop, at `now`.
    pub open spec fn asked(self, suppress: bool, now: u64) -> Suppression {
        Suppression { on: suppress, alive_ms: now }
    }

    /// Suppression after its owner was heard from at `now`.
    pub open spec fn heard(self, now: u64) -> Suppression {
        Suppression { alive_ms: now, ..self }
    }

    /// Suppression after the way out was taken.
    pub open spec fn given_back(self) -> Suppression {
        Suppression { on: false, ..self }
    }

    /// Observe-only: what capture begins with.
    pub fn start(now: u64) -> (r: Self)
        ensures
            r == Self::begun(now),
    {
        Suppression { on: false, alive_ms: now }
    }

    /// Starts or stops swallowing local input.
    ///
    /// Only ever turn this on while a remote machine is confirmed to be
    /// receiving the events, and keep calling [`Suppression::heartbeat`] while it
    /// is on. The hook releases on its own if you stop.
    pub fn set_suppressing(&mut self, suppress: bool, now: u64)
        ensures
            *final(self) == old(self).asked(suppress, now),
    {
        self.alive_ms = now;
        self.on = suppress;
    }

    pub fn is_suppressing(&self) -> (r: bool)
        ensures
            r == self.on,
    {
        self.on
    }

    /// Tells the hook the rest of the program is still alive. Must be called
    /// more often than [`WATCHDOG_LIMIT_MS`] while suppressing.
    pub fn heartbeat(&mut self, now: u64)
        ensures
            *final(self) == old(self).heard(now),
    {
        self.alive_ms = now;
    }

    /// Whether the event at hand is swallowed.
    pub fn suppressing_now(&mut self, now: u64) -> (r: bool)
        ensures
            r == old(self).swallows(now),
            *final(self) == old(self).after_event(now),
    {
        if !self.on {
            return false;
        }
        if now > self.alive_ms && now - self.alive_ms > WATCHDOG_LIMIT_MS {
            // Fail open, always.
            self.on = false;
            return false;
        }
        true
    }

    /// The way out that asks nobody. Returns whether anything was held back.
    pub fn release(&mut self) -> (r: bool)
        ensures
            r == old(self).on,
            *final(self) == old(self).given_back(),
    {
        let was = self.on;
        self.on = false;
        was
    }
}

/// Nothing is swallowed before somebody asks for it.
pub proof fn capture_starts_in_observe_only_mode(now: u64, then: u64)
    ensures
        !(Suppression { on: false, alive_ms: now }).swallows(then),
        !Suppression::begun(now).swallows(then),
        !Suppression::begun(now).heard(then).swallows(then),
{
}

/// An owner that falls silent loses the keyboard: no event later than the limit
/// after its last word is swallowed, whatever events came in between.
pub proof fn silence_releases_the_keyboard(s: Suppression, between: u64, now: u64)
    requires
        now > s.alive_ms + WATCHDOG_LIMIT_MS,
    ensures
        !s.swallows(now),
        !s.after_event(between).swallows(now),
{
}

/// Once released, nothing is swallowed again without somebody asking for it:
/// neither an event nor a late heartbeat brings suppression back.
pub proof fn released_stays_released(s: Suppression, beat: u64, now: u64)
    requires
        !s.on,
    ensures
        !s.after_event(now).on,
        !(Suppression { alive_ms: beat, ..s }).swallows(now),
{
}

/// An owner that keeps talking keeps the keyboard.
pub proof fn heartbeats_keep_suppression(s: Suppression, beat: u64, now: u64)
    requires
        s.on,
        beat <= now <= beat + WATCHDOG_LIMIT_MS,
    ensures
        (Suppression { alive_ms: beat, ..s }).swallows(now),
{
}

/// What is asked for is done: from the moment it is asked for, every event is swallowed
/// for as long as the owner is heard from at least every two seconds, and not one once
/// it was asked to stop.
pub proof fn asking_is_enough(s: Suppression, asked: u64, beat: u64, now: u64)
    ensures
        asked <= now <= asked + 2_000 ==> s.asked(true, asked).swallows(now),
        beat <= now <= beat + 2_000 ==> s.asked(true, asked).heard(beat).swallows(now),
        beat <= now <= beat + 2_000 ==> s.asked(true, asked).after_event(asked).heard(
            beat,
        ).swallows(now),
        now > asked + 2_000 ==> !s.asked(true, asked).swallows(now),
        !s.asked(false, asked).swallows(now),
        !s.asked(false, asked).heard(beat).swallows(now),
{
}

/// The way out works at any time and for good: nothing is swallowed after it, whatever
/// is heard, until somebody asks again.
pub proof fn the_way_out_is_final(s: Suppression, beat: u64, now: u64, then: u64)
    ensures
        !s.given_back().swallows(now),
        !s.given_back().heard(beat).swallows(now),
        !s.given_back().after_event(now).heard(beat).swallows(then),
        s.given_back().alive_ms == s.alive_ms,
{
}

} // verus!
