//! How long to sleep.

use vstd::prelude::*;

verus! {

/// Longest sleep, and the sleep when no signal is due, in seconds. The timer is
/// always set, so that the device wakes even if it has no schedule, has lost the
/// time, or misses the button.
pub const FALLBACK_SECS: u32 = 86_400;

/// How long to sleep.
#[derive(Debug, Clone, Copy, PartialEq, Eq, Structural)]
pub struct SleepPlan {
    /// Seconds of corrected time.
    pub seconds: u32,
    /// Microseconds by the timer of the device.
    pub micros: u64,
}

/// Seconds to sleep when the next signal is due in `next` seconds: at least one,
/// at most a day, and a day where none is due.
pub open spec fn sleep_seconds(next: Option<u32>) -> int {
    match next {
        Some(s) => if s < 1 {
            1
        } else if s > FALLBACK_SECS {
            FALLBACK_SECS as int
        } else {
            s as int
        },
        None => FALLBACK_SECS as int,
    }
}

/// Microseconds by a timer of rate `cal_ppm` in which the corrected clock
/// advances by `seconds`, rounded towards zero. At a rate of more than a
/// million the quotient is negative and is taken as a 64-bit pattern.
pub open spec fn timer_micros(seconds: int, cal_ppm: int) -> int {
    if cal_ppm < 1_000_000 {
        seconds * 1_000_000_000_000 / (1_000_000 - cal_ppm)
    } else {
        0x1_0000_0000_0000_0000 - seconds * 1_000_000_000_000 / (cal_ppm - 1_000_000)
    }
}

/// Plans the sleep before the next signal, due in `next_secs` seconds, of a
/// device whose clock has the rate `cal_ppm`.
///
/// A fast clock is set back after waking. The timer runs longer by as much, so
/// that the corrected clock then stands at the signal and not short of it.
pub fn plan_sleep(next_secs: Option<u32>, cal_ppm: i32) -> (p: SleepPlan)
    requires
        cal_ppm != 1_000_000,
    ensures
        p.seconds == sleep_seconds(next_secs),
        p.micros == timer_micros(sleep_seconds(next_secs), cal_ppm as int),
{
    let seconds: u32 = match next_secs {
        Some(s) => if s < 1 {
            1
        } else if s > FALLBACK_SECS {
            FALLBACK_SECS
        } else {
            s
        },
        None => FALLBACK_SECS,
    };
    let scaled: u64 = seconds as u64 * 1_000_000_000_000;
    let micros: u64 = if cal_ppm < 1_000_000 {
        scaled / (1_000_000 - cal_ppm as i64) as u64
    } else {
        let over: u64 = (cal_ppm - 1_000_000) as u64;
        proof {
            assert(0 < scaled / over <= scaled) by (nonlinear_arith)
                requires
                    0 < over <= 2_147_483_647,
                    scaled >= 1_000_000_000_000,
            ;
        }
        u64::MAX - scaled / over + 1
    };
    SleepPlan { seconds, micros }
}

} // verus!
