//! What the searches of a schedule and the decisions on waking promise, in the
//! numbers that go in and come out.
//!
//! A signal of range `i` is named by its day (0 is today) and its count `k` from
//! the start of the range: it falls `start_min + k * interval_min` minutes after
//! the midnight of that day.

use vstd::prelude::*;

use crate::schedule::{Schedule, Segment};
use crate::wake::{Wake, WakeAction, load_schedule, next_signal, on_wake, wakeup_cause};

verus! {

/// A range signals only inside its own limits, and only at its start and at whole
/// periods behind it. The count of the signal is returned.
pub proof fn law_signal_has_a_count(s: Schedule, i: int, day: int, t: int) -> (k: int)
    requires
        s.slot_of(i, day, t),
    ensures
        0 <= i < s.segments@.len(),
        s.segments@[i].enabled,
        s.segments@[i].interval_min > 0,
        s.segments@[i].start_min < s.segments@[i].end_min,
        0 <= k,
        t == 86_400 * day + 60 * (s.segments@[i].start_min + k * s.segments@[i].interval_min),
        86_400 * day + 60 * s.segments@[i].start_min <= t < 86_400 * day + 60
            * s.segments@[i].end_min,
{
    let g = s.segments@[i];
    let x = t - 86_400 * day - 60 * g.start_min;
    let step = 60 * g.interval_min;
    let k = x / step;
    vstd::arithmetic::div_mod::lemma_fundamental_div_mod(x, step);
    vstd::arithmetic::div_mod::lemma_div_pos_is_pos(x, step);
    assert(step * k == 60 * (k * g.interval_min)) by (nonlinear_arith)
        requires
            step == 60 * g.interval_min,
    ;
    k
}

/// Every count inside an enabled range is a signal.
pub proof fn law_every_count_is_a_signal(s: Schedule, i: int, day: int, k: int)
    requires
        0 <= i < s.segments@.len(),
        s.segments@[i].enabled,
        s.segments@[i].interval_min > 0,
        0 <= k,
        s.segments@[i].start_min + k * s.segments@[i].interval_min < s.segments@[i].end_min,
    ensures
        s.slot_of(
            i,
            day,
            86_400 * day + 60 * (s.segments@[i].start_min + k * s.segments@[i].interval_min),
        ),
{
    let g = s.segments@[i];
    let step = 60 * g.interval_min;
    assert(0 <= k * g.interval_min) by (nonlinear_arith)
        requires
            0 <= k,
            0 < g.interval_min,
    ;
    assert(k * step == 60 * (k * g.interval_min)) by (nonlinear_arith)
        requires
            step == 60 * g.interval_min,
    ;
    vstd::arithmetic::div_mod::lemma_mod_multiples_basic(k, step);
}

/// The times of day at which a schedule is active are those inside an enabled,
/// not empty range with a period.
pub proof fn law_active_inside_limits(s: Schedule, t: int)
    ensures
        s.active(t) <==> exists|i: int|
            #![trigger s.segments@[i]]
            0 <= i < s.segments@.len() && s.segments@[i].enabled && s.segments@[i].interval_min > 0
                && s.segments@[i].start_min < s.segments@[i].end_min && 60
                * s.segments@[i].start_min <= t < 60 * s.segments@[i].end_min,
{
    if exists|i: int|
        #![trigger s.segments@[i]]
        0 <= i < s.segments@.len() && s.segments@[i].enabled && s.segments@[i].interval_min > 0
            && s.segments@[i].start_min < s.segments@[i].end_min && 60 * s.segments@[i].start_min
            <= t < 60 * s.segments@[i].end_min {
        let i = choose|i: int|
            #![trigger s.segments@[i]]
            0 <= i < s.segments@.len() && s.segments@[i].enabled && s.segments@[i].interval_min > 0
                && s.segments@[i].start_min < s.segments@[i].end_min && 60
                * s.segments@[i].start_min <= t < 60 * s.segments@[i].end_min;
        assert(s.segments@[i].covers(t));
    }
}

/// `in_active_segment` tells whether the second lies inside an enabled, not empty
/// range with a period.
pub proof fn law_in_active_segment(s: Schedule, now_sec: u32, b: bool)
    requires
        call_ensures(Schedule::in_active_segment, (&s, now_sec), b),
    ensures
        b <==> exists|i: int|
            #![trigger s.segments@[i]]
            0 <= i < s.segments@.len() && s.segments@[i].enabled && s.segments@[i].interval_min > 0
                && s.segments@[i].start_min < s.segments@[i].end_min && 60
                * s.segments@[i].start_min <= now_sec < 60 * s.segments@[i].end_min,
{
    law_active_inside_limits(s, now_sec as int);
}

/// An answer under a guard leads to a signal behind the guard, of the range, day
/// and count that are returned.
proof fn lemma_answer_is_a_signal(s: Schedule, now: int, guard: int, wait: Option<u32>) -> (w: (
    int,
    int,
    int,
))
    requires
        s.next_after(now, guard, wait),
        wait is Some,
    ensures
        0 <= w.0 < s.segments@.len(),
        0 <= w.1 <= 2,
        0 <= w.2,
        s.segments@[w.0].enabled,
        s.segments@[w.0].interval_min > 0,
        s.segments@[w.0].start_min + w.2 * s.segments@[w.0].interval_min < s.segments@[w.0].end_min,
        now + wait->0 == 86_400 * w.1 + 60 * (s.segments@[w.0].start_min + w.2
            * s.segments@[w.0].interval_min),
        wait->0 > guard,
{
    let t = now + wait->0;
    assert(s.slot(t));
    let (i, day) = choose|i: int, day: int| 0 <= day < 3 && #[trigger] s.slot_of(i, day, t);
    let k = law_signal_has_a_count(s, i, day, t);
    (i, day, k)
}

/// A signal behind the guard is never in front of the answer.
proof fn lemma_no_signal_before_answer(
    s: Schedule,
    now: int,
    guard: int,
    wait: Option<u32>,
    i: int,
    day: int,
    k: int,
)
    requires
        s.next_after(now, guard, wait),
        0 <= i < s.segments@.len(),
        0 <= day <= 2,
        0 <= k,
        s.segments@[i].enabled,
        s.segments@[i].interval_min > 0,
        s.segments@[i].start_min + k * s.segments@[i].interval_min < s.segments@[i].end_min,
        now + guard < 86_400 * day + 60 * (s.segments@[i].start_min + k
            * s.segments@[i].interval_min),
    ensures
        wait is Some,
        now + wait->0 <= 86_400 * day + 60 * (s.segments@[i].start_min + k
            * s.segments@[i].interval_min),
{
    law_every_count_is_a_signal(s, i, day, k);
    let t = 86_400 * day + 60 * (s.segments@[i].start_min + k * s.segments@[i].interval_min);
    assert(s.slot_of(i, day, t));
    assert(s.slot(t));
}

/// The wait of `seconds_until_next` ends at a signal later than now: one of an
/// enabled range, at its start or whole periods behind it and before its end. Its
/// range, day and count are returned.
pub proof fn law_wait_ends_at_a_signal(s: Schedule, now_sec: u32, wait: Option<u32>) -> (w: (
    int,
    int,
    int,
))
    requires
        call_ensures(Schedule::seconds_until_next, (&s, now_sec), wait),
        wait is Some,
    ensures
        0 <= w.0 < s.segments@.len(),
        0 <= w.1 <= 2,
        0 <= w.2,
        s.segments@[w.0].enabled,
        s.segments@[w.0].interval_min > 0,
        s.segments@[w.0].start_min + w.2 * s.segments@[w.0].interval_min < s.segments@[w.0].end_min,
        now_sec + wait->0 == 86_400 * w.1 + 60 * (s.segments@[w.0].start_min + w.2
            * s.segments@[w.0].interval_min),
        wait->0 > 0,
{
    lemma_answer_is_a_signal(s, now_sec as int, 0, wait)
}

/// `seconds_until_next` passes over nothing: any signal later than now, today or
/// on the two days ahead, is at the end of the wait or behind it.
pub proof fn law_wait_passes_over_nothing(
    s: Schedule,
    now_sec: u32,
    wait: Option<u32>,
    i: int,
    day: int,
    k: int,
)
    requires
        call_ensures(Schedule::seconds_until_next, (&s, now_sec), wait),
        0 <= i < s.segments@.len(),
        0 <= day <= 2,
        0 <= k,
        s.segments@[i].enabled,
        s.segments@[i].interval_min > 0,
        s.segments@[i].start_min + k * s.segments@[i].interval_min < s.segments@[i].end_min,
        now_sec < 86_400 * day + 60 * (s.segments@[i].start_min + k * s.segments@[i].interval_min),
    ensures
        wait is Some,
        now_sec + wait->0 <= 86_400 * day + 60 * (s.segments@[i].start_min + k
            * s.segments@[i].interval_min),
{
    lemma_no_signal_before_answer(s, now_sec as int, 0, wait, i, day, k);
}

/// The guarded wait ends at a signal later than now by more than the guard. Its
/// range, day and count are returned.
pub proof fn law_guarded_wait_ends_at_a_signal(
    s: Schedule,
    now_sec: u32,
    guard_s: u32,
    wait: Option<u32>,
) -> (w: (int, int, int))
    requires
        call_ensures(Schedule::seconds_until_next_guarded, (&s, now_sec, guard_s), wait),
        wait is Some,
    ensures
        0 <= w.0 < s.segments@.len(),
        0 <= w.1 <= 2,
        0 <= w.2,
        s.segments@[w.0].enabled,
        s.segments@[w.0].interval_min > 0,
        s.segments@[w.0].start_min + w.2 * s.segments@[w.0].interval_min < s.segments@[w.0].end_min,
        now_sec + wait->0 == 86_400 * w.1 + 60 * (s.segments@[w.0].start_min + w.2
            * s.segments@[w.0].interval_min),
        wait->0 > guard_s,
{
    lemma_answer_is_a_signal(s, now_sec as int, guard_s as int, wait)
}

/// The guard passes over no more than it has to: any signal later than now by more
/// than the guard is at the end of the wait or behind it.
pub proof fn law_guarded_wait_passes_over_no_more(
    s: Schedule,
    now_sec: u32,
    guard_s: u32,
    wait: Option<u32>,
    i: int,
    day: int,
    k: int,
)
    requires
        call_ensures(Schedule::seconds_until_next_guarded, (&s, now_sec, guard_s), wait),
        0 <= i < s.segments@.len(),
        0 <= day <= 2,
        0 <= k,
        s.segments@[i].enabled,
        s.segments@[i].interval_min > 0,
        s.segments@[i].start_min + k * s.segments@[i].interval_min < s.segments@[i].end_min,
        now_sec + guard_s < 86_400 * day + 60 * (s.segments@[i].start_min + k
            * s.segments@[i].interval_min),
    ensures
        wait is Some,
        now_sec + wait->0 <= 86_400 * day + 60 * (s.segments@[i].start_min + k
            * s.segments@[i].interval_min),
{
    lemma_no_signal_before_answer(s, now_sec as int, guard_s as int, wait, i, day, k);
}

/// The guarded wait is the plain wait from the end of the guard, with the guard
/// added: how two calls relate.
pub proof fn law_guard_shifts_the_wait(
    s: Schedule,
    now_sec: u32,
    guard_s: u32,
    later: u32,
    guarded: Option<u32>,
    plain: Option<u32>,
)
    requires
        later == now_sec + guard_s,
        call_ensures(Schedule::seconds_until_next_guarded, (&s, now_sec, guard_s), guarded),
        call_ensures(Schedule::seconds_until_next, (&s, later), plain),
    ensures
        guarded is Some <==> plain is Some,
        guarded is Some ==> guarded->0 == plain->0 + guard_s,
{
    if guarded is Some {
        assert(s.slot(now_sec + guarded->0));
    }
    if plain is Some {
        assert(s.slot(later + plain->0));
    }
}

/// The searches and the signal after a reminder can be asked for at any time of
/// day.
pub proof fn law_searches_can_be_asked(s: Schedule, now: u32, guard: u32, reminded: bool)
    ensures
        call_requires(Schedule::seconds_until_next, (&s, now)),
        call_requires(Schedule::in_active_segment, (&s, now)),
        now + guard <= u32::MAX ==> call_requires(
            Schedule::seconds_until_next_guarded,
            (&s, now, guard),
        ),
        now < 86_400 ==> call_requires(next_signal, (&s, Some(now), reminded)),
        call_requires(next_signal, (&s, None, reminded)),
{
}

/// A reminder never costs the following signal, and never brings the same one
/// again: after it, the next signal is the first one more than thirty seconds
/// ahead; without it, the first one ahead.
pub proof fn law_next_signal_after_reminder(
    s: Schedule,
    now: u32,
    reminded: bool,
    wait: Option<u32>,
)
    requires
        call_ensures(next_signal, (&s, Some(now), reminded), wait),
    ensures
        wait is Some ==> s.slot(now + wait->0),
        wait is Some ==> wait->0 > 0,
        wait is Some && reminded ==> wait->0 > 30,
        forall|t: int| #[trigger]
            s.slot(t) && (if reminded {
                t > now + 30
            } else {
                t > now
            }) ==> wait is Some && now + wait->0 <= t,
{
}

/// The signal found after a reminder, or without one, is a signal of the range,
/// day and count that are returned.
pub proof fn law_next_signal_is_a_signal(
    s: Schedule,
    now: u32,
    reminded: bool,
    wait: Option<u32>,
) -> (w: (int, int, int))
    requires
        call_ensures(next_signal, (&s, Some(now), reminded), wait),
        wait is Some,
    ensures
        0 <= w.0 < s.segments@.len(),
        0 <= w.1 <= 2,
        0 <= w.2,
        s.segments@[w.0].enabled,
        s.segments@[w.0].interval_min > 0,
        s.segments@[w.0].start_min + w.2 * s.segments@[w.0].interval_min < s.segments@[w.0].end_min,
        now + wait->0 == 86_400 * w.1 + 60 * (s.segments@[w.0].start_min + w.2
            * s.segments@[w.0].interval_min),
        wait->0 > if reminded {
            30int
        } else {
            0
        },
{
    lemma_answer_is_a_signal(
        s,
        now as int,
        if reminded {
            30
        } else {
            0
        },
        wait,
    )
}

/// The following signal is kept, named by its range, day and count: after a
/// reminder one that is more than thirty seconds ahead, without one any that is
/// ahead.
pub proof fn law_next_signal_keeps_following(
    s: Schedule,
    now: u32,
    reminded: bool,
    wait: Option<u32>,
    i: int,
    day: int,
    k: int,
)
    requires
        call_ensures(next_signal, (&s, Some(now), reminded), wait),
        0 <= i < s.segments@.len(),
        0 <= day <= 2,
        0 <= k,
        s.segments@[i].enabled,
        s.segments@[i].interval_min > 0,
        s.segments@[i].start_min + k * s.segments@[i].interval_min < s.segments@[i].end_min,
        now + (if reminded {
            30int
        } else {
            0
        }) < 86_400 * day + 60 * (s.segments@[i].start_min + k * s.segments@[i].interval_min),
    ensures
        wait is Some,
        now + wait->0 <= 86_400 * day + 60 * (s.segments@[i].start_min + k
            * s.segments@[i].interval_min),
{
    lemma_no_signal_before_answer(
        s,
        now as int,
        if reminded {
            30
        } else {
            0
        },
        wait,
        i,
        day,
        k,
    );
}

/// Without a known time there is no next signal.
pub proof fn law_no_time_no_signal(s: Schedule, reminded: bool, wait: Option<u32>)
    requires
        call_ensures(next_signal, (&s, None, reminded), wait),
    ensures
        wait is None,
{
}

/// On waking a reminder is given exactly if the timer rang, the time is known, and
/// an enabled range covers it; configuration begins exactly at a cold start
/// without a known time; the button is looked at exactly if it woke the device.
pub proof fn law_on_wake(cause: Wake, now: Option<u32>, s: Schedule, a: WakeAction)
    requires
        call_ensures(on_wake, (cause, now, &s), a),
    ensures
        a == WakeAction::Remind <==> cause == Wake::Timer && now is Some && exists|i: int|
            #![trigger s.segments@[i]]
            0 <= i < s.segments@.len() && s.segments@[i].enabled && s.segments@[i].interval_min > 0
                && s.segments@[i].start_min < s.segments@[i].end_min && 60
                * s.segments@[i].start_min <= now->0 < 60 * s.segments@[i].end_min,
        a == WakeAction::TimeUnknown <==> cause == Wake::Timer && now is None,
        a == WakeAction::Configure <==> cause == Wake::Cold && now is None,
        a == WakeAction::CheckButton <==> cause == Wake::Button,
        a == WakeAction::Proceed <==> cause == Wake::Cold && now is Some,
{
    if now is Some {
        law_active_inside_limits(s, now->0 as int);
    }
}

/// Only the code of the timer is the timer, and only that of the pin the button.
pub proof fn law_wakeup_cause(source: u32, timer: u32, gpio: u32, w: Wake)
    requires
        call_ensures(wakeup_cause, (source, timer, gpio), w),
    ensures
        w == Wake::Timer <==> source == timer,
        w == Wake::Button <==> source == gpio && source != timer,
{
}

/// A schedule that could be read is used as it is; else one signals every 7
/// minutes from 9:00 to 20:00 and every 20 minutes from 20:00 to 23:00.
pub proof fn law_load_schedule(stored: Option<Schedule>, s: Schedule)
    requires
        call_ensures(load_schedule, (stored,), s),
    ensures
        stored is Some ==> s.segments@ == stored->0.segments@,
        stored is None ==> forall|t: int| #[trigger]
            s.active(t) <==> 9 * 3600 <= t < 23 * 3600,
        stored is None ==> s.segments@ == seq![
            Segment { start_min: 540, end_min: 1200, interval_min: 7, enabled: true },
            Segment { start_min: 1200, end_min: 1380, interval_min: 20, enabled: true },
        ],
{
    if stored is None {
        assert forall|t: int| #[trigger] s.active(t) <==> 9 * 3600 <= t < 23 * 3600 by {
            if 9 * 3600 <= t < 20 * 3600 {
                assert(s.segments@[0].covers(t));
            } else if 20 * 3600 <= t < 23 * 3600 {
                assert(s.segments@[1].covers(t));
            }
        }
    }
}

/// The demonstration signals every 7 minutes from 9:00 to 20:00 and every 20
/// minutes from 20:00 to 23:00.
pub proof fn law_default_demo(s: Schedule)
    requires
        call_ensures(Schedule::default_demo, (), s),
    ensures
        s.segments@ == seq![
            Segment { start_min: 540, end_min: 1200, interval_min: 7, enabled: true },
            Segment { start_min: 1200, end_min: 1380, interval_min: 20, enabled: true },
        ],
{
}

} // verus!
