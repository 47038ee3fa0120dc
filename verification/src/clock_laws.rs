//! What holds of the clock: of its calibration, of the correction of drift, and
//! of the messages that set it.

use vstd::prelude::*;

use crate::bytes::{
    le_digits, le_signed_digits, lemma_le_round_trip, lemma_le_signed_round_trip, lemma_pow256,
    signed,
};
use crate::calibration::{
    ClockCal, MAX_CAL_PPM, MAX_CAL_STEP_PPM, SyncOutcome, clkcal_bytes, clkcal_of, quotient,
};
use crate::drift::{DriftState, fits};
use crate::message::{TimeMessage, is_time_message};

verus! {

/// A stored calibration is read back as it was.
pub proof fn law_clkcal_round_trip(c: ClockCal)
    ensures
        clkcal_bytes(c).len() == 14,
        clkcal_of(clkcal_bytes(c)) == c,
{
    lemma_pow256();
    let a = le_signed_digits(c.cal_ppm as int, 4);
    let b = le_signed_digits(c.last_sync_utc as int, 8);
    let d = le_signed_digits(c.offset_min as int, 2);
    lemma_le_signed_round_trip(c.cal_ppm as int, 4);
    lemma_le_signed_round_trip(c.last_sync_utc as int, 8);
    lemma_le_signed_round_trip(c.offset_min as int, 2);
    let all = clkcal_bytes(c);
    assert(all.subrange(0, 4) =~= a);
    assert(all.subrange(4, 12) =~= b);
    assert(all.subrange(12, 14) =~= d);
}

/// A message with UTC and offset is read as it was written, whatever follows it.
pub proof fn law_zoned_message_round_trip(
    utc_epoch: u64,
    offset_min: i16,
    tail: Seq<u8>,
    m: TimeMessage,
)
    requires
        is_time_message(
            le_digits(utc_epoch as int, 8) + le_signed_digits(offset_min as int, 2) + tail,
            m,
        ),
    ensures
        m == (TimeMessage::Zoned { utc_epoch, offset_min }),
{
    lemma_pow256();
    lemma_le_round_trip(utc_epoch as int, 8);
    lemma_le_signed_round_trip(offset_min as int, 2);
    let b = le_digits(utc_epoch as int, 8) + le_signed_digits(offset_min as int, 2) + tail;
    assert(b.subrange(0, 8) =~= le_digits(utc_epoch as int, 8));
    assert(b.subrange(8, 10) =~= le_signed_digits(offset_min as int, 2));
}

/// A message with local time alone is read as it was written, with at most one
/// byte behind it.
pub proof fn law_local_message_round_trip(local_epoch: u64, tail: Seq<u8>, m: TimeMessage)
    requires
        tail.len() < 2,
        is_time_message(le_digits(local_epoch as int, 8) + tail, m),
    ensures
        m == (TimeMessage::Local { local_epoch }),
{
    lemma_pow256();
    lemma_le_round_trip(local_epoch as int, 8);
    let b = le_digits(local_epoch as int, 8) + tail;
    assert(b.subrange(0, 8) =~= le_digits(local_epoch as int, 8));
}

/// A rate within the bound stays within it and changes by no more than one step;
/// a rate that was learned is within the bound whatever it was before.
pub proof fn law_rate_is_bounded(c: ClockCal, dev_local: int, utc: int)
    ensures
        c.usable(dev_local) && c.long_enough(utc) ==> -MAX_CAL_PPM <= c.learned_ppm(dev_local, utc)
            <= MAX_CAL_PPM,
        -MAX_CAL_PPM <= c.cal_ppm <= MAX_CAL_PPM ==> {
            &&& -MAX_CAL_PPM <= c.learned_ppm(dev_local, utc) <= MAX_CAL_PPM
            &&& -MAX_CAL_STEP_PPM <= c.learned_ppm(dev_local, utc) - c.cal_ppm <= MAX_CAL_STEP_PPM
        },
{
}

/// No message takes the rate out of its bound.
pub proof fn law_message_keeps_rate_bounded(
    m: TimeMessage,
    c: ClockCal,
    dev_local: int,
    out: SyncOutcome,
)
    requires
        -MAX_CAL_PPM <= c.cal_ppm <= MAX_CAL_PPM,
        m.leads_to(c, dev_local, out),
    ensures
        -MAX_CAL_PPM <= out.cal.cal_ppm <= MAX_CAL_PPM,
        out.drift.wf(),
{
}

/// Zones do not disturb the rate: devices that differ only in the zone of the
/// last synchronisation, and see the same UTC, learn the same.
pub proof fn law_last_zone_does_not_matter(
    a: ClockCal,
    b: ClockCal,
    local_a: int,
    local_b: int,
    utc: int,
)
    requires
        a.cal_ppm == b.cal_ppm,
        a.last_sync_utc == b.last_sync_utc,
        a.device_utc(local_a) == b.device_utc(local_b),
        a.usable(local_a) == b.usable(local_b),
    ensures
        a.learned_ppm(local_a, utc) == b.learned_ppm(local_b, utc),
{
}

/// Zones do not disturb the rate: the offset that a message brings changes local
/// time, but neither the rate nor the UTC that are stored.
pub proof fn law_new_zone_does_not_matter(
    c: ClockCal,
    dev_local: int,
    utc_epoch: u64,
    offset_a: i16,
    offset_b: i16,
    a: SyncOutcome,
    b: SyncOutcome,
)
    requires
        (TimeMessage::Zoned { utc_epoch, offset_min: offset_a }).leads_to(c, dev_local, a),
        (TimeMessage::Zoned { utc_epoch, offset_min: offset_b }).leads_to(c, dev_local, b),
    ensures
        a.cal.cal_ppm == b.cal.cal_ppm,
        a.cal.last_sync_utc == b.cal.last_sync_utc,
        a.drift.checkpoint - b.drift.checkpoint == (offset_a - offset_b) * 60,
        a.drift.checkpoint >= 0 && b.drift.checkpoint >= 0 ==> a.clock - b.clock == (offset_a
            - offset_b) * 60,
{
}

/// The rate is learned exactly: a device that gained `rate` millionths of the
/// time since the last synchronisation, over what was already corrected, adds
/// just that, within the bounds.
pub proof fn law_learns_the_rate(c: ClockCal, dev_local: int, utc: int, rate: int)
    requires
        c.last_sync_utc >= 1_600_000_000,
        dev_local >= 1_600_000_000,
        utc - c.last_sync_utc >= 14_400,
        (dev_local - 60 * c.offset_min - utc) * 1_000_000 == rate * (utc - c.last_sync_utc),
        -20_000 <= rate <= 20_000,
        -50_000 <= c.cal_ppm + rate <= 50_000,
    ensures
        c.learned_ppm(dev_local, utc) == c.cal_ppm + rate,
{
    let elapsed = utc - c.last_sync_utc;
    if rate >= 0 {
        assert(rate * elapsed >= 0) by (nonlinear_arith)
            requires
                rate >= 0,
                elapsed > 0,
        ;
        vstd::arithmetic::div_mod::lemma_div_by_multiple(rate, elapsed);
    } else {
        assert(rate * elapsed < 0) by (nonlinear_arith)
            requires
                rate < 0,
                elapsed > 0,
        ;
        assert(-(rate * elapsed) == (-rate) * elapsed) by (nonlinear_arith);
        vstd::arithmetic::div_mod::lemma_div_by_multiple(-rate, elapsed);
    }
    assert(c.residual_ppm(dev_local, utc) == rate);
}

/// A device that is ahead does not lower its rate, and one that is behind does
/// not raise it, as long as the remaining rate is a 64-bit number.
pub proof fn law_rate_follows_error(c: ClockCal, dev_local: int, utc: int)
    requires
        -MAX_CAL_PPM <= c.cal_ppm <= MAX_CAL_PPM,
        fits(c.residual_ppm(dev_local, utc)),
    ensures
        c.device_utc(dev_local) >= utc ==> c.learned_ppm(dev_local, utc) >= c.cal_ppm,
        c.device_utc(dev_local) <= utc ==> c.learned_ppm(dev_local, utc) <= c.cal_ppm,
{
    if c.usable(dev_local) && c.long_enough(utc) {
        let elapsed = utc - c.last_sync_utc;
        let ahead = (c.device_utc(dev_local) - utc) * 1_000_000;
        if ahead >= 0 {
            vstd::arithmetic::div_mod::lemma_div_pos_is_pos(ahead, elapsed);
        }
        if ahead <= 0 {
            vstd::arithmetic::div_mod::lemma_div_pos_is_pos(-ahead, elapsed);
        }
        if ahead == 0 {
            assert(quotient(ahead, elapsed) == 0) by {
                vstd::arithmetic::div_mod::lemma_div_by_multiple(0, elapsed);
            }
        }
    }
}

/// Local time alone pauses learning: the rate is kept through it and through the
/// synchronisation that follows.
pub proof fn law_local_time_pauses_learning(
    c: ClockCal,
    local_epoch: u64,
    dev_before: int,
    dev_after: int,
    utc: int,
    out: SyncOutcome,
)
    requires
        (TimeMessage::Local { local_epoch }).leads_to(c, dev_before, out),
    ensures
        out.cal.cal_ppm == c.cal_ppm,
        out.cal.learned_ppm(dev_after, utc) == c.cal_ppm,
{
}

/// Right after a message the clock has nothing to correct.
pub proof fn law_nothing_to_correct_after_message(
    m: TimeMessage,
    c: ClockCal,
    dev_local: int,
    out: SyncOutcome,
    cal_ppm: int,
    next: DriftState,
)
    requires
        m.leads_to(c, dev_local, out),
        out.drift.advances_to(signed(out.clock as int, 8), cal_ppm, next),
    ensures
        next == out.drift,
{
    lemma_pow256();
}

/// `states` are the states of the correction around a series of wake-ups at which
/// the clock, running from each checkpoint on, showed `clocks`.
pub open spec fn wake_series(states: Seq<DriftState>, clocks: Seq<int>, cal_ppm: int) -> bool {
    &&& states.len() == clocks.len() + 1
    &&& forall|k: int|
        #![trigger clocks[k]]
        0 <= k < clocks.len() ==> states[k].due(clocks[k]) && states[k].advances_to(
            clocks[k],
            cal_ppm,
            states[k + 1],
        )
}

/// Time that the clock ran between the first `n` wake-ups, by its own count.
pub open spec fn time_run(states: Seq<DriftState>, clocks: Seq<int>, n: nat) -> int
    decreases n,
{
    if n == 0 {
        0
    } else {
        time_run(states, clocks, (n - 1) as nat) + clocks[n - 1] - states[n - 1].checkpoint
    }
}

/// Time taken off the clock at the first `n` wake-ups.
pub open spec fn time_taken_off(states: Seq<DriftState>, clocks: Seq<int>, n: nat) -> int
    decreases n,
{
    if n == 0 {
        0
    } else {
        time_taken_off(states, clocks, (n - 1) as nat) + clocks[n - 1] - states[n as int].checkpoint
    }
}

/// No drift is lost to rounding: over any series of wake-ups, what is taken off
/// and what is left make up the whole drift of the time that the clock ran.
pub proof fn law_no_drift_is_lost(
    states: Seq<DriftState>,
    clocks: Seq<int>,
    cal_ppm: int,
    n: nat,
)
    requires
        wake_series(states, clocks, cal_ppm),
        n <= clocks.len(),
    ensures
        1_000_000 * time_taken_off(states, clocks, n) + states[n as int].remainder
            == states[0].remainder + time_run(states, clocks, n) * cal_ppm,
    decreases n,
{
    if n > 0 {
        let m = n - 1;
        law_no_drift_is_lost(states, clocks, cal_ppm, m as nat);
        let ran = clocks[m] - states[m].checkpoint;
        let before = time_run(states, clocks, m as nat);
        assert(states[m].due(clocks[m]));
        assert((before + ran) * cal_ppm == before * cal_ppm + ran * cal_ppm) by (nonlinear_arith);
    } else {
        assert(time_run(states, clocks, 0) * cal_ppm == 0);
    }
}

/// How often the device wakes does not matter: a series of wake-ups takes off as
/// much as a single one would after the same time, and leaves as much.
pub proof fn law_splitting_a_sleep_changes_nothing(
    states: Seq<DriftState>,
    clocks: Seq<int>,
    cal_ppm: int,
    once: DriftState,
)
    requires
        wake_series(states, clocks, cal_ppm),
        clocks.len() > 0,
        states[0].advances_to(
            states[0].checkpoint + time_run(states, clocks, clocks.len()),
            cal_ppm,
            once,
        ),
    ensures
        once == states.last(),
{
    let n = clocks.len();
    let total = time_run(states, clocks, n);
    let off = time_taken_off(states, clocks, n);
    law_no_drift_is_lost(states, clocks, cal_ppm, n);
    lemma_time_adds_up(states, clocks, cal_ppm, n);
    assert(states[n - 1].due(clocks[n - 1]));
    assert(states[0].due(clocks[0]));
    let g = states[0].remainder + total * cal_ppm;
    assert(states[n as int].remainder == states[n - 1].gathered(clocks[n - 1], cal_ppm) % 1_000_000);
    assert(g / 1_000_000 == off && g % 1_000_000 == states[n as int].remainder);
}

/// The last checkpoint is the first one plus the time run less the time taken
/// off, and the clock ran for a positive time from a set checkpoint.
proof fn lemma_time_adds_up(states: Seq<DriftState>, clocks: Seq<int>, cal_ppm: int, n: nat)
    requires
        wake_series(states, clocks, cal_ppm),
        n <= clocks.len(),
    ensures
        states[n as int].checkpoint == states[0].checkpoint + time_run(states, clocks, n)
            - time_taken_off(states, clocks, n),
        n > 0 ==> time_run(states, clocks, n) > 0,
        n > 0 ==> states[0].checkpoint + time_run(states, clocks, n) >= clocks[0],
    decreases n,
{
    if n > 0 {
        let m = n - 1;
        lemma_time_adds_up(states, clocks, cal_ppm, m as nat);
        assert(states[m].due(clocks[m]));
        if m == 0 {
            assert(time_run(states, clocks, 0) == 0);
        }
    }
}

} // verus!
