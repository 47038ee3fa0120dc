//! What holds of every schedule.

use vstd::prelude::*;

use crate::schedule::{SEARCH_DAYS, SECONDS_PER_DAY, Schedule, Segment, day_start};

verus! {

impl Schedule {
    /// Some range takes part in the schedule.
    pub open spec fn has_live(self) -> bool {
        exists|i: int| 0 <= i < self.segments@.len() && #[trigger] self.segments@[i].live()
    }

    /// No live range reaches past midnight.
    pub open spec fn within_day(self) -> bool {
        forall|i: int|
            0 <= i < self.segments@.len() && #[trigger] self.segments@[i].live()
                ==> self.segments@[i].end_sec() <= SECONDS_PER_DAY
    }

    /// Some range has a signal at moment `t` when the schedule repeats on every
    /// day, past and future.
    pub open spec fn slot_any_day(self, t: int) -> bool {
        exists|i: int, day: int| #[trigger] self.slot_of(i, day, t)
    }
}

/// A live range gives its first signal at its very start.
pub proof fn law_first_slot_is_start(s: Schedule, i: int, day: int)
    requires
        0 <= i < s.segments@.len(),
        s.segments@[i].live(),
    ensures
        s.slot_of(i, day, day_start(day) + s.segments@[i].start_sec()),
{
    vstd::arithmetic::div_mod::lemma_small_mod(0, s.segments@[i].step_sec() as nat);
}

/// The signals of a range are exactly one period apart: one period after a
/// signal comes the next, as long as the range lasts, and none in between.
pub proof fn law_slots_one_period_apart(s: Schedule, i: int, day: int, t: int)
    requires
        s.slot_of(i, day, t),
    ensures
        t + s.segments@[i].step_sec() < day_start(day) + s.segments@[i].end_sec() <==> s.slot_of(
            i,
            day,
            t + s.segments@[i].step_sec(),
        ),
        forall|u: int|
            t < u < t + s.segments@[i].step_sec() ==> !#[trigger] s.slot_of(i, day, u),
{
    let seg = s.segments@[i];
    let x = t - day_start(day) - seg.start_sec();
    let step = seg.step_sec();
    vstd::arithmetic::div_mod::lemma_mod_add_multiples_vanish(x, step);
    assert((step + x) % step == 0);
    assert(t + step - day_start(day) - seg.start_sec() == step + x);
    assert forall|u: int| t < u < t + step implies !#[trigger] s.slot_of(i, day, u) by {
        let y = u - t;
        vstd::arithmetic::div_mod::lemma_small_mod(y as nat, step as nat);
        vstd::arithmetic::div_mod::lemma_mod_adds(x, y, step);
        assert(u - day_start(day) - seg.start_sec() == x + y);
        vstd::arithmetic::div_mod::lemma_add_mod_noop(x, y, step);
        assert((x + y) % step == y % step);
    }
}

/// Signals come from the live ranges alone: two schedules with the same live
/// ranges, in any order and however often repeated, give the same signals and
/// are active at the same times. Ranges that are switched off or empty, or
/// whose period is zero, count for nothing.
pub proof fn law_only_live_ranges_matter(a: Schedule, b: Schedule)
    requires
        forall|g: Segment|
            g.live() ==> (#[trigger] a.segments@.contains(g) <==> b.segments@.contains(g)),
    ensures
        forall|t: int| #[trigger] a.slot(t) == b.slot(t),
        forall|t: int| #[trigger] a.active(t) == b.active(t),
{
    assert forall|t: int| #[trigger] a.slot(t) == b.slot(t) by {
        lemma_slots_carry_over(a, b, t);
        assert(forall|g: Segment|
            g.live() ==> (#[trigger] b.segments@.contains(g) <==> a.segments@.contains(g)));
        lemma_slots_carry_over(b, a, t);
    }
    assert forall|t: int| #[trigger] a.active(t) == b.active(t) by {
        lemma_activity_carries_over(a, b, t);
        lemma_activity_carries_over(b, a, t);
    }
}

proof fn lemma_slots_carry_over(a: Schedule, b: Schedule, t: int)
    requires
        forall|g: Segment|
            g.live() && #[trigger] a.segments@.contains(g) ==> b.segments@.contains(g),
    ensures
        a.slot(t) ==> b.slot(t),
{
    if a.slot(t) {
        let (i, day) = choose|i: int, day: int| 0 <= day < SEARCH_DAYS && #[trigger] a.slot_of(i, day, t);
        let g = a.segments@[i];
        assert(a.segments@.contains(g));
        assert(b.segments@.contains(g));
        let j = choose|j: int| 0 <= j < b.segments@.len() && b.segments@[j] == g;
        assert(b.slot_of(j, day, t));
    }
}

proof fn lemma_activity_carries_over(a: Schedule, b: Schedule, t: int)
    requires
        forall|g: Segment|
            g.live() && #[trigger] a.segments@.contains(g) ==> b.segments@.contains(g),
    ensures
        a.active(t) ==> b.active(t),
{
    if a.active(t) {
        let i = choose|i: int|
            0 <= i < a.segments@.len() && #[trigger] a.segments@[i].covers(t);
        let g = a.segments@[i];
        assert(a.segments@.contains(g));
        assert(b.segments@.contains(g));
        let j = choose|j: int| 0 <= j < b.segments@.len() && b.segments@[j] == g;
        assert(b.segments@[j].covers(t));
    }
}

/// Ranges do not disturb each other, overlapping or not: a schedule put
/// together from two gives the signals of both.
pub proof fn law_ranges_add_up(a: Schedule, b: Schedule, both: Schedule)
    requires
        both.segments@ == a.segments@ + b.segments@,
    ensures
        forall|t: int| #[trigger] both.slot(t) <==> a.slot(t) || b.slot(t),
        forall|t: int| #[trigger] both.active(t) <==> a.active(t) || b.active(t),
{
    let n = a.segments@.len() as int;
    assert forall|t: int| #[trigger] both.slot(t) <==> a.slot(t) || b.slot(t) by {
        if both.slot(t) {
            let (i, day) = choose|i: int, day: int|
                0 <= day < SEARCH_DAYS && #[trigger] both.slot_of(i, day, t);
            if i < n {
                assert(a.slot_of(i, day, t));
            } else {
                assert(b.slot_of(i - n, day, t));
            }
        }
        if a.slot(t) {
            let (i, day) = choose|i: int, day: int| 0 <= day < SEARCH_DAYS && #[trigger] a.slot_of(i, day, t);
            assert(both.slot_of(i, day, t));
        }
        if b.slot(t) {
            let (i, day) = choose|i: int, day: int| 0 <= day < SEARCH_DAYS && #[trigger] b.slot_of(i, day, t);
            assert(both.slot_of(i + n, day, t));
        }
    }
    assert forall|t: int| #[trigger] both.active(t) <==> a.active(t) || b.active(t) by {
        if both.active(t) {
            let i = choose|i: int|
                0 <= i < both.segments@.len() && #[trigger] both.segments@[i].covers(t);
            if i < n {
                assert(a.segments@[i].covers(t));
            } else {
                assert(b.segments@[i - n].covers(t));
            }
        }
        if a.active(t) {
            let i = choose|i: int| 0 <= i < a.segments@.len() && #[trigger] a.segments@[i].covers(t);
            assert(both.segments@[i].covers(t));
        }
        if b.active(t) {
            let i = choose|i: int| 0 <= i < b.segments@.len() && #[trigger] b.segments@[i].covers(t);
            assert(both.segments@[i + n].covers(t));
        }
    }
}

/// A schedule, a moment and a guard leave one answer only.
pub proof fn law_wait_is_unique(s: Schedule, now: int, guard: int, a: Option<u32>, b: Option<u32>)
    requires
        s.next_after(now, guard, a),
        s.next_after(now, guard, b),
    ensures
        a == b,
{
    if a is Some {
        assert(s.slot(now + a->0));
    }
    if b is Some {
        assert(s.slot(now + b->0));
    }
}

/// From any moment of today or tomorrow, the guard included, there is a next
/// signal exactly if some range is live.
pub proof fn law_wait_exists_iff_live(s: Schedule, now: int, guard: int, wait: Option<u32>)
    requires
        now + guard < 2 * SECONDS_PER_DAY,
        s.next_after(now, guard, wait),
    ensures
        wait is Some <==> s.has_live(),
{
    if s.has_live() {
        let i = choose|i: int| 0 <= i < s.segments@.len() && #[trigger] s.segments@[i].live();
        let t = day_start(2) + s.segments@[i].start_sec();
        law_first_slot_is_start(s, i, 2);
        assert(s.slot(t));
    }
    if wait is Some {
        let t = now + wait->0;
        let (i, day) = choose|i: int, day: int| 0 <= day < SEARCH_DAYS && #[trigger] s.slot_of(i, day, t);
        assert(s.segments@[i].live());
    }
}

/// From any moment of today or tomorrow the next signal is at most one day
/// behind the guarded moment, provided some live range starts by midnight.
pub proof fn law_wait_at_most_a_day(s: Schedule, i: int, now: int, guard: int, wait: Option<u32>)
    requires
        0 <= now + guard < 2 * SECONDS_PER_DAY,
        0 <= i < s.segments@.len(),
        s.segments@[i].live(),
        s.segments@[i].start_min <= 1440,
        s.next_after(now, guard, wait),
    ensures
        wait is Some,
        guard < wait->0 <= guard + SECONDS_PER_DAY,
{
    let start = s.segments@[i].start_sec();
    law_first_slot_is_start(s, i, 0);
    law_first_slot_is_start(s, i, 1);
    law_first_slot_is_start(s, i, 2);
    assert(s.slot(day_start(0) + start));
    assert(s.slot(day_start(1) + start));
    assert(s.slot(day_start(2) + start));
}

/// The search misses nothing: where no live range reaches past midnight, an answer
/// is also the first signal of the schedule repeated on every day, and from any
/// moment of today or tomorrow, the guard included, the lack of an answer means
/// that the schedule never signals.
pub proof fn law_search_misses_nothing(s: Schedule, now: int, guard: int, wait: Option<u32>)
    requires
        s.within_day(),
        0 <= now + guard,
        s.next_after(now, guard, wait),
    ensures
        wait is Some ==> s.slot_any_day(now + wait->0) && forall|t: int|
            now + guard < t < now + wait->0 ==> !#[trigger] s.slot_any_day(t),
        wait is None && now + guard < 2 * SECONDS_PER_DAY ==> forall|t: int|
            !#[trigger] s.slot_any_day(t),
{
    if wait is Some {
        let u = now + wait->0;
        let (j, e) = choose|j: int, e: int| 0 <= e < SEARCH_DAYS && #[trigger] s.slot_of(j, e, u);
        assert(s.segments@[j].live());
        assert forall|t: int| now + guard < t < u implies !#[trigger] s.slot_any_day(t) by {
            if s.slot_any_day(t) {
                let (i, day) = choose|i: int, day: int| #[trigger] s.slot_of(i, day, t);
                assert(s.segments@[i].live());
                if 0 <= day < SEARCH_DAYS {
                    assert(s.slot(t));
                }
            }
        }
    } else if now + guard < 2 * SECONDS_PER_DAY {
        law_wait_exists_iff_live(s, now, guard, wait);
        assert forall|t: int| !#[trigger] s.slot_any_day(t) by {
            if s.slot_any_day(t) {
                let (i, day) = choose|i: int, day: int| #[trigger] s.slot_of(i, day, t);
                assert(s.segments@[i].live());
            }
        }
    }
}

/// The device is silent in the gaps: where no live range reaches past
/// midnight, a signal falls only on a time of day that a live range covers, so
/// a device that wakes on the moment finds itself inside the active window.
pub proof fn law_slots_are_active(s: Schedule, t: int)
    requires
        s.within_day(),
        s.slot(t),
    ensures
        s.active(t % (SECONDS_PER_DAY as int)),
{
    let (i, day) = choose|i: int, day: int| 0 <= day < SEARCH_DAYS && #[trigger] s.slot_of(i, day, t);
    assert(s.segments@[i].live());
    let u = t - day_start(day);
    assert(t % (SECONDS_PER_DAY as int) == u);
    assert(s.segments@[i].covers(u));
}

/// A device that wakes late, but before the range ends, is still inside the
/// active window.
pub proof fn law_late_wake_is_active(s: Schedule, i: int, t: int, late: int)
    requires
        s.slot_of(i, 0, t),
        0 <= late,
        t + late < s.segments@[i].end_sec(),
    ensures
        s.active(t + late),
{
    assert(s.segments@[i].covers(t + late));
}

/// No signal is passed over without a guard: the answer is never behind a signal
/// that is still to come, so a device that woke early and stayed silent wakes
/// again in time.
pub proof fn law_no_signal_is_missed(s: Schedule, now: int, t: int, wait: Option<u32>)
    requires
        now < t,
        s.slot(t),
        s.next_after(now, 0, wait),
    ensures
        wait is Some,
        now + wait->0 <= t,
{
}

/// Every signal falls on a whole minute.
pub proof fn law_slots_on_whole_minutes(s: Schedule, t: int)
    requires
        s.slot(t),
    ensures
        t % 60 == 0,
{
    let (i, day) = choose|i: int, day: int| 0 <= day < SEARCH_DAYS && #[trigger] s.slot_of(i, day, t);
    let g = s.segments@[i];
    let x = t - day_start(day) - g.start_sec();
    let q = x / g.step_sec();
    vstd::arithmetic::div_mod::lemma_fundamental_div_mod(x, g.step_sec());
    assert(g.step_sec() * q == 60 * (g.interval_min * q)) by (nonlinear_arith)
        requires
            g.step_sec() == g.interval_min * 60,
    ;
    let m = g.interval_min * q;
    assert(t == 60 * (day * 1440 + g.start_min + m));
}

/// A guard shorter than a minute passes over one signal at most.
pub proof fn law_guard_passes_one_signal(s: Schedule, now: int, guard: int, t: int, u: int)
    requires
        guard < 60,
        s.slot(t),
        s.slot(u),
        now < t <= now + guard,
        now < u <= now + guard,
    ensures
        t == u,
{
    law_slots_on_whole_minutes(s, t);
    law_slots_on_whole_minutes(s, u);
}

/// The guard delays, it never hastens; and where the next signal lies beyond
/// the guard it changes nothing.
pub proof fn law_guard_only_delays(
    s: Schedule,
    now: int,
    guard: int,
    plain: Option<u32>,
    guarded: Option<u32>,
)
    requires
        0 <= guard,
        s.next_after(now, 0, plain),
        s.next_after(now, guard, guarded),
    ensures
        guarded is Some ==> plain is Some && plain->0 <= guarded->0,
        plain is Some && plain->0 > guard ==> guarded == plain,
        plain is None ==> guarded is None,
{
    if guarded is Some {
        assert(s.slot(now + guarded->0));
    }
    if plain is Some && plain->0 > guard {
        assert(s.next_after(now, guard, plain));
        law_wait_is_unique(s, now, guard, plain, guarded);
    }
}

/// A signal given up to `guard` seconds early is not given twice: the guarded
/// answer lies behind it.
pub proof fn law_guard_passes_current(
    s: Schedule,
    now: int,
    guard: int,
    t: int,
    guarded: Option<u32>,
)
    requires
        t <= now + guard,
        s.next_after(now, guard, guarded),
    ensures
        guarded is Some ==> now + guarded->0 > t,
{
}

/// The guard keeps the following signal of the range as long as it ends before
/// that signal: the next answer is then at most one period behind the signal at
/// `t`. After waking early or on time, a guard shorter than a minute always
/// does.
pub proof fn law_guard_keeps_following(
    s: Schedule,
    i: int,
    day: int,
    t: int,
    now: int,
    guard: int,
    guarded: Option<u32>,
)
    requires
        0 <= day < SEARCH_DAYS,
        s.slot_of(i, day, t),
        s.slot_of(i, day, t + s.segments@[i].step_sec()),
        s.next_after(now, guard, guarded),
    ensures
        now + guard < t + s.segments@[i].step_sec() ==> guarded is Some && now + guarded->0 <= t
            + s.segments@[i].step_sec(),
        now <= t && guard < 60 ==> guarded is Some && now + guarded->0 <= t
            + s.segments@[i].step_sec(),
{
    assert(s.slot(t + s.segments@[i].step_sec()));
}

} // verus!
