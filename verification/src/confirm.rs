//! The hold-to-confirm countdown of the destructive modals. A countdown of
//! zero fires at once; otherwise the first `y` arms the countdown, a
//! second `y` disarms it, and it fires once the full countdown has passed.
//!
//! Times are monotonic clock readings and durations in nanoseconds.

use vstd::prelude::*;

verus! {

/// What a `y` press did.
#[derive(Debug, PartialEq, Eq, Clone, Copy, Structural)]
pub enum ConfirmKeyAction {
    /// No countdown configured: act now.
    FireNow,
    /// The countdown started.
    Armed,
    /// A running countdown was cancelled.
    Disarmed,
}

/// What a clock tick found.
#[derive(Debug, PartialEq, Eq, Clone, Copy, Structural)]
pub enum CountdownTickOutcome {
    /// No countdown is running.
    NotArmed,
    /// Running, not yet elapsed.
    Pending,
    /// Elapsed: the action fires now and the countdown is cleared.
    ReadyToFire,
}

#[derive(Debug, Default, PartialEq, Eq, Clone, Copy, Structural)]
pub struct ConfirmModal {
    /// When the countdown was armed, if it is running.
    pub started_at: Option<u64>,
}

/// Nanoseconds in a second.
pub const NANOS_PER_SEC: u64 = 1_000_000_000;

/// Time passed since `started`, never negative.
pub open spec fn elapsed(now: u64, started: u64) -> int {
    if now >= started { now - started } else { 0 }
}

/// Seconds left, rounded up, of `remaining` nanoseconds.
pub open spec fn ceil_secs(remaining: int) -> int {
    if remaining % (NANOS_PER_SEC as int) == 0 {
        remaining / (NANOS_PER_SEC as int)
    } else {
        remaining / (NANOS_PER_SEC as int) + 1
    }
}

/// A `y` press: the new arming and what the press did.
pub open spec fn press_spec(started: Option<u64>, now: u64, total: u64) -> (Option<u64>, ConfirmKeyAction) {
    if total == 0 {
        (None, ConfirmKeyAction::FireNow)
    } else if started is Some {
        (None, ConfirmKeyAction::Disarmed)
    } else {
        (Some(now), ConfirmKeyAction::Armed)
    }
}

/// A clock tick: the new arming and what the tick found.
pub open spec fn tick_spec(started: Option<u64>, now: u64, total: u64) -> (Option<u64>, CountdownTickOutcome) {
    match started {
        None => (None, CountdownTickOutcome::NotArmed),
        Some(s) => if total == 0 {
            (None, CountdownTickOutcome::NotArmed)
        } else if elapsed(now, s) < total {
            (Some(s), CountdownTickOutcome::Pending)
        } else {
            (None, CountdownTickOutcome::ReadyToFire)
        },
    }
}

impl ConfirmModal {
    /// Not armed.
    pub fn new() -> (r: ConfirmModal)
        ensures
            r.started_at is None,
    {
        ConfirmModal { started_at: None }
    }

    /// Disarm.
    pub fn reset(&mut self)
        ensures
            final(self).started_at is None,
    {
        self.started_at = None;
    }

    /// A `y` press at `now` with a countdown of `total`.
    pub fn press_y(&mut self, now: u64, total: u64) -> (r: ConfirmKeyAction)
        ensures
            (final(self).started_at, r) == press_spec(old(self).started_at, now, total),
    {
        if total == 0 {
            self.started_at = None;
            return ConfirmKeyAction::FireNow;
        }
        if self.started_at.is_some() {
            self.started_at = None;
            ConfirmKeyAction::Disarmed
        } else {
            self.started_at = Some(now);
            ConfirmKeyAction::Armed
        }
    }

    /// Disarm (the modal was dismissed).
    pub fn dismiss(&mut self)
        ensures
            final(self).started_at is None,
    {
        self.started_at = None;
    }

    /// A clock tick at `now`.
    pub fn tick(&mut self, now: u64, total: u64) -> (r: CountdownTickOutcome)
        ensures
            (final(self).started_at, r) == tick_spec(old(self).started_at, now, total),
    {
        let started = match self.started_at {
            Some(s) => s,
            None => return CountdownTickOutcome::NotArmed,
        };
        if total == 0 {
            self.started_at = None;
            return CountdownTickOutcome::NotArmed;
        }
        let el = now.saturating_sub(started);
        if el < total {
            CountdownTickOutcome::Pending
        } else {
            self.started_at = None;
            CountdownTickOutcome::ReadyToFire
        }
    }

    /// Whole seconds left on the countdown, rounded up; 0 when not armed,
    /// when there is no countdown, or when it has run out.
    pub fn remaining_secs(&self, now: u64, total: u64) -> (r: u64)
        ensures
            match self.started_at {
                None => r == 0,
                Some(s) => if total == 0 || elapsed(now, s) >= total {
                    r == 0
                } else {
                    r == ceil_secs(total - elapsed(now, s))
                },
            },
    {
        let started = match self.started_at {
            Some(s) => s,
            None => return 0,
        };
        if total == 0 {
            return 0;
        }
        let remaining = total.saturating_sub(now.saturating_sub(started));
        if remaining == 0 {
            return 0;
        }
        let extra: u64 = if remaining % NANOS_PER_SEC > 0 { 1 } else { 0 };
        remaining / NANOS_PER_SEC + extra
    }
}

/// A second `y` takes back the first: with a countdown configured, an
/// idle modal is armed by one press and disarmed by the next.
pub proof fn law_second_press_disarms(now1: u64, now2: u64, total: u64)
    requires
        total != 0,
    ensures
        press_spec(None, now1, total) == (Some(now1), ConfirmKeyAction::Armed),
        press_spec(press_spec(None, now1, total).0, now2, total) == (None::<u64>, ConfirmKeyAction::Disarmed),
{
}

/// An armed countdown keeps waiting until the full duration has passed
/// and then fires once, leaving the modal disarmed.
pub proof fn law_fires_once_elapsed(s: u64, now: u64, total: u64)
    requires
        total != 0,
        now >= s,
    ensures
        now - s < total ==> tick_spec(Some(s), now, total) == (Some(s), CountdownTickOutcome::Pending),
        now - s >= total ==> tick_spec(Some(s), now, total) == (None::<u64>, CountdownTickOutcome::ReadyToFire),
        now - s >= total ==> tick_spec(tick_spec(Some(s), now, total).0, now, total).1 == CountdownTickOutcome::NotArmed,
{
}

} // verus!
