//! What the device does when it wakes.

use vstd::prelude::*;

use crate::schedule::{Schedule, demo_segments};

verus! {

/// After a reminder, a signal at most this many seconds ahead is the one just
/// given. The correction of drift can set the clock back to shortly before it.
/// Shorter than the shortest period, so that the following signal is kept.
pub const REBUZZ_GUARD_S: u32 = 30;

/// Why the device woke.
#[derive(Debug, Clone, Copy, PartialEq, Eq, Structural)]
pub enum Wake {
    Timer,
    Button,
    /// First start, or power lost.
    Cold,
}

/// What to do after waking.
#[derive(Debug, Clone, Copy, PartialEq, Eq, Structural)]
pub enum WakeAction {
    /// Give the reminder.
    Remind,
    /// The timer rang outside every range: stay silent.
    OutsideRanges,
    /// The timer rang but the time is not known: stay silent.
    TimeUnknown,
    /// See whether the button is held.
    CheckButton,
    /// Confirm, and let the phone configure the device.
    Configure,
    /// Nothing.
    Proceed,
}

/// The cause of a wake-up from the code `source` that the chip reports, where
/// `timer` and `gpio` are its codes for the timer and for a pin. Any other code
/// is a cold start.
pub fn wakeup_cause(source: u32, timer: u32, gpio: u32) -> (w: Wake)
    ensures
        w == if source == timer {
            Wake::Timer
        } else if source == gpio {
            Wake::Button
        } else {
            Wake::Cold
        },
{
    if source == timer {
        Wake::Timer
    } else if source == gpio {
        Wake::Button
    } else {
        Wake::Cold
    }
}

/// The schedule to go by: the stored one if it could be read, else the
/// demonstration.
pub fn load_schedule(stored: Option<Schedule>) -> (s: Schedule)
    ensures
        s.segments@ == match stored {
            Some(kept) => kept.segments@,
            None => demo_segments(),
        },
{
    match stored {
        Some(kept) => kept,
        None => Schedule::default_demo(),
    }
}

/// What to do after waking from `cause` at time of day `now`, if it is known.
///
/// The timer gives a reminder only inside a range; elsewhere it is the fallback
/// that rang. A cold start without a known time asks for configuration, since
/// no schedule can be kept without it.
pub fn on_wake(cause: Wake, now: Option<u32>, schedule: &Schedule) -> (a: WakeAction)
    ensures
        a == match (cause, now) {
            (Wake::Timer, Some(t)) => if schedule.active(t as int) {
                WakeAction::Remind
            } else {
                WakeAction::OutsideRanges
            },
            (Wake::Timer, None) => WakeAction::TimeUnknown,
            (Wake::Button, _) => WakeAction::CheckButton,
            (Wake::Cold, Some(_)) => WakeAction::Proceed,
            (Wake::Cold, None) => WakeAction::Configure,
        },
{
    match cause {
        Wake::Timer => match now {
            Some(t) => if schedule.in_active_segment(t) {
                WakeAction::Remind
            } else {
                WakeAction::OutsideRanges
            },
            None => WakeAction::TimeUnknown,
        },
        Wake::Button => WakeAction::CheckButton,
        Wake::Cold => match now {
            Some(_) => WakeAction::Proceed,
            None => WakeAction::Configure,
        },
    }
}

/// The guard that applies after a reminder was given or not.
pub open spec fn guard_after(reminded: bool) -> int {
    if reminded {
        REBUZZ_GUARD_S as int
    } else {
        0
    }
}

/// Seconds from time of day `now` to the next signal, `None` if there is none or
/// the time is not known. After a reminder the current signal counts as given.
pub fn next_signal(schedule: &Schedule, now: Option<u32>, reminded: bool) -> (wait: Option<u32>)
    requires
        reminded && now is Some ==> now->0 + REBUZZ_GUARD_S <= u32::MAX,
    ensures
        now is None ==> wait is None,
        now is Some ==> schedule.next_after(now->0 as int, guard_after(reminded), wait),
        now is Some ==> forall|t: int| #[trigger]
            schedule.slot(t) && t > now->0 + (if reminded {
                30int
            } else {
                0
            }) ==> wait is Some && now->0 + wait->0 <= t,
{
    match now {
        None => None,
        Some(t) => if reminded {
            schedule.seconds_until_next_guarded(t, REBUZZ_GUARD_S)
        } else {
            schedule.seconds_until_next(t)
        },
    }
}

} // verus!
