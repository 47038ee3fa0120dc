//! What holds from one sleep to the next: the schedule, the plan of the sleep and
//! the correction of the clock taken together.

use vstd::prelude::*;

use crate::calibration::MAX_CAL_PPM;
use crate::drift::DriftState;
use crate::schedule::{SECONDS_PER_DAY, Schedule};
use crate::schedule_laws::{law_guard_passes_current, law_wait_at_most_a_day};
use crate::sleep::{FALLBACK_SECS, sleep_seconds, timer_micros};
use crate::wake::{REBUZZ_GUARD_S, guard_after};

verus! {

/// The device never sleeps forever, nor not at all.
pub proof fn law_sleep_is_bounded(next: Option<u32>)
    ensures
        1 <= sleep_seconds(next) <= FALLBACK_SECS,
{
}

/// The longest sleep never cuts a wait short: from any time of day a schedule with
/// a live range that starts by midnight is slept up to its very signal.
pub proof fn law_sleep_reaches_signal(s: Schedule, i: int, now: int, wait: Option<u32>)
    requires
        0 <= now < SECONDS_PER_DAY,
        0 <= i < s.segments@.len(),
        s.segments@[i].live(),
        s.segments@[i].start_min <= 1440,
        s.next_after(now, 0, wait),
    ensures
        wait is Some,
        sleep_seconds(wait) == wait->0,
        s.slot(now + sleep_seconds(wait)),
{
    law_wait_at_most_a_day(s, i, now, 0, wait);
}

/// A signal is given once: after a reminder that was at most the guard early, the
/// next signal is a later one.
pub proof fn law_signal_is_given_once(s: Schedule, now: int, t: int, wait: Option<u32>)
    requires
        s.slot(t),
        t - REBUZZ_GUARD_S <= now,
        s.next_after(now, guard_after(true), wait),
    ensures
        wait is Some ==> now + wait->0 > t,
{
    law_guard_passes_current(s, now, REBUZZ_GUARD_S as int, t, wait);
}

/// The timer makes up for the drift: a clock of rate `cal_ppm` runs for the
/// planned time, less what it gains on the way, in the planned seconds, to
/// within one microsecond.
pub proof fn law_timer_makes_up_for_drift(seconds: int, cal_ppm: int)
    requires
        0 <= seconds,
        cal_ppm < 1_000_000,
    ensures
        timer_micros(seconds, cal_ppm) * (1_000_000 - cal_ppm) <= seconds * 1_000_000_000_000,
        seconds * 1_000_000_000_000 < (timer_micros(seconds, cal_ppm) + 1) * (1_000_000 - cal_ppm),
{
    let total = seconds * 1_000_000_000_000;
    let d = 1_000_000 - cal_ppm;
    let m = total / d;
    vstd::arithmetic::div_mod::lemma_fundamental_div_mod(total, d);
    vstd::arithmetic::div_mod::lemma_mod_bound(total, d);
    assert(m * d == d * m) by (nonlinear_arith);
    assert((m + 1) * d == d * m + d) by (nonlinear_arith);
}

/// Whole seconds of the timer, less the gain, fall short of the planned seconds by
/// less than one second of the clock.
proof fn lemma_whole_seconds(seconds: int, cal_ppm: int, raw: int)
    requires
        0 <= seconds,
        cal_ppm < 1_000_000,
        raw == timer_micros(seconds, cal_ppm) / 1_000_000,
    ensures
        raw * (1_000_000 - cal_ppm) <= seconds * 1_000_000,
        seconds * 1_000_000 < (raw + 1) * (1_000_000 - cal_ppm),
{
    law_timer_makes_up_for_drift(seconds, cal_ppm);
    let d = 1_000_000 - cal_ppm;
    let m = timer_micros(seconds, cal_ppm);
    assert(1_000_000 * (raw * d) <= m * d) by (nonlinear_arith)
        requires
            1_000_000 * raw <= m,
            0 < d,
    ;
    assert((m + 1) * d <= 1_000_000 * ((raw + 1) * d)) by (nonlinear_arith)
        requires
            m + 1 <= 1_000_000 * (raw + 1),
            0 < d,
    ;
}

/// The device wakes on the signal, not after it, and at most two seconds before
/// it; the correction of the clock is included.
///
/// `asleep_at` is what the clock showed when the device fell asleep, and `after`
/// the state once the clock was corrected on waking. Time spent awake since the
/// last correction, `asleep_at` less the checkpoint, drifts as well. Up to five
/// minutes of it, which is as long as the configuration window may take, the
/// device is never further ahead of the signal than the guard.
pub proof fn law_sleep_lands_on_signal(
    before: DriftState,
    asleep_at: int,
    next: Option<u32>,
    cal_ppm: int,
    after: DriftState,
)
    requires
        before.wf(),
        -MAX_CAL_PPM <= cal_ppm <= MAX_CAL_PPM,
        before.checkpoint <= asleep_at,
        ({
            let woke_at = asleep_at + timer_micros(sleep_seconds(next), cal_ppm) / 1_000_000;
            before.due(woke_at) && before.advances_to(woke_at, cal_ppm, after)
        }),
    ensures
        ({
            let off = after.checkpoint - (asleep_at + sleep_seconds(next));
            let awake = asleep_at - before.checkpoint;
            &&& -2_050_000 < 1_000_000 * off + awake * cal_ppm < 1_000_000
            &&& awake == 0 ==> -2 <= off <= 0
            &&& awake <= 300 ==> -REBUZZ_GUARD_S <= off
        }),
{
    let s = sleep_seconds(next);
    let raw = timer_micros(s, cal_ppm) / 1_000_000;
    let awake = asleep_at - before.checkpoint;
    let d = 1_000_000 - cal_ppm;
    let off = after.checkpoint - (asleep_at + s);
    lemma_whole_seconds(s, cal_ppm, raw);
    assert((raw + 1) * d == raw * d + d) by (nonlinear_arith);
    assert(raw * d == raw * 1_000_000 - raw * cal_ppm) by (nonlinear_arith)
        requires
            d == 1_000_000 - cal_ppm,
    ;
    assert((awake + raw) * cal_ppm == awake * cal_ppm + raw * cal_ppm) by (nonlinear_arith);
    let g = before.remainder + (awake + raw) * cal_ppm;
    assert(before.gathered(asleep_at + raw, cal_ppm) == g);
    assert(1_000_000 * (g / 1_000_000) + g % 1_000_000 == g);
    assert(off == raw - g / 1_000_000 - s);
    if awake == 0 {
        assert(awake * cal_ppm == 0);
    }
    if awake <= 300 {
        assert(awake * cal_ppm <= 15_000_000) by (nonlinear_arith)
            requires
                0 <= awake <= 300,
                cal_ppm <= 50_000,
        ;
    }
}

} // verus!
