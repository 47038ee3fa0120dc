//! The schedule: which moments of the day carry a signal, and how long it is
//! until the next one.
//!
//! Moments are seconds on a timeline whose zero is local midnight today. A
//! schedule is laid on that timeline for three days, from today on, so that a
//! search late in the evening finds the next morning, and so does one that starts
//! from a moment shortly past midnight.

use vstd::prelude::*;

verus! {

pub const SECONDS_PER_DAY: u32 = 86_400;

/// Days that a search covers: today and the two days ahead.
pub const SEARCH_DAYS: u32 = 3;

/// One range of the schedule, such as "day" or "evening".
///
/// Times are minutes since local midnight. A range is not meant to cross
/// midnight; a nightly range is written as two, and silence is a gap.
#[derive(Debug, Clone, PartialEq, Eq, Structural)]
pub struct Segment {
    /// Start of the range, minutes since midnight (`0..=1440`).
    pub start_min: u16,
    /// End of the range, minutes since midnight (`> start_min`).
    pub end_min: u16,
    /// Period of the signal inside the range, minutes (`> 0`).
    pub interval_min: u16,
    /// Whether the range is switched on.
    pub enabled: bool,
}

impl Segment {
    /// The range takes part in the schedule: it is switched on, it is not
    /// empty, and its period is not zero.
    pub open spec fn live(self) -> bool {
        self.enabled && self.interval_min > 0 && self.end_min > self.start_min
    }

    /// Second of the day at which the range begins.
    pub open spec fn start_sec(self) -> int {
        self.start_min * 60
    }

    /// First second of the day behind the range.
    pub open spec fn end_sec(self) -> int {
        self.end_min * 60
    }

    /// Seconds from one signal of the range to the next.
    pub open spec fn step_sec(self) -> int {
        self.interval_min * 60
    }

    /// Second `t` of the day lies inside the live range.
    pub open spec fn covers(self, t: int) -> bool {
        self.live() && self.start_sec() <= t < self.end_sec()
    }

    /// A signal is due at second `t` of the day: `t` lies inside the live range,
    /// a whole number of periods after its start.
    pub open spec fn slot(self, t: int) -> bool {
        self.covers(t) && (t - self.start_sec()) % self.step_sec() == 0
    }

    fn is_live(&self) -> (b: bool)
        ensures
            b == self.live(),
    {
        self.enabled && self.interval_min > 0 && self.end_min > self.start_min
    }

    /// Moment of the first signal of the range later than `now`, where the day
    /// of the range begins at moment `base`; `None` if that day has no such
    /// signal left.
    fn next_slot(&self, base: u32, now: u32) -> (r: Option<u32>)
        requires
            base <= (SEARCH_DAYS - 1) * SECONDS_PER_DAY,
        ensures
            match r {
                Some(t) => {
                    &&& t > now
                    &&& self.slot(t - base)
                    &&& forall|u: int| now < u < t ==> !#[trigger] self.slot(u - base)
                },
                None => forall|u: int| now < u ==> !#[trigger] self.slot(u - base),
            },
    {
        if !self.is_live() {
            return None;
        }
        let start: u32 = base + self.start_min as u32 * 60;
        let end: u32 = base + self.end_min as u32 * 60;
        let step: u32 = self.interval_min as u32 * 60;
        let t: u64 = if now >= start {
            let k: u64 = ((now - start) / step) as u64 + 1;
            proof {
                lemma_next_multiple((now - start) as int, step as int);
                assert(k * step <= now - start + step);
            }
            start as u64 + k * step as u64
        } else {
            start as u64
        };
        proof {
            assert(t - start == t - base - self.start_sec());
            assert((t - start) % (step as int) == 0) by {
                if now >= start {
                    lemma_next_multiple((now - start) as int, step as int);
                } else {
                    vstd::arithmetic::div_mod::lemma_small_mod(0, step as nat);
                }
            }
            if now >= start {
                assert forall|u: int| now < u < t implies !#[trigger] self.slot(u - base) by {
                    lemma_between_multiples((now - start) as int, u - start, step as int);
                    assert(u - start == u - base - self.start_sec());
                }
            }
        }
        if t < end as u64 {
            Some(t as u32)
        } else {
            None
        }
    }
}

/// The first multiple of `step` above `x` is at most `step` above it.
proof fn lemma_next_multiple(x: int, step: int)
    requires
        0 <= x,
        0 < step,
    ensures
        x < (x / step + 1) * step <= x + step,
        ((x / step + 1) * step) % step == 0,
{
    vstd::arithmetic::div_mod::lemma_fundamental_div_mod(x, step);
    vstd::arithmetic::div_mod::lemma_mod_bound(x, step);
    vstd::arithmetic::div_mod::lemma_mod_multiples_basic(x / step + 1, step);
    assert((x / step + 1) * step == step * (x / step) + step) by (nonlinear_arith);
}

/// No multiple of `step` lies strictly between `x` and the first one above it.
proof fn lemma_between_multiples(x: int, y: int, step: int)
    requires
        0 <= x < y < (x / step + 1) * step,
        0 < step,
    ensures
        y % step != 0,
{
    vstd::arithmetic::div_mod::lemma_fundamental_div_mod(x, step);
    vstd::arithmetic::div_mod::lemma_fundamental_div_mod(y, step);
    vstd::arithmetic::div_mod::lemma_mod_bound(x, step);
    let p = x / step;
    let q = y / step;
    if y % step == 0 {
        assert(p < q) by (nonlinear_arith)
            requires
                step * p < step * q,
                0 < step,
        ;
        assert(q < p + 1) by (nonlinear_arith)
            requires
                step * q < (p + 1) * step,
                0 < step,
        ;
    }
}

/// The ranges of one day, in any order; they may overlap and leave gaps.
#[derive(Debug, Clone, PartialEq, Eq)]
pub struct Schedule {
    pub segments: Vec<Segment>,
}

/// Second at which day `day` begins: today is day 0, tomorrow is day 1.
pub open spec fn day_start(day: int) -> int {
    day * SECONDS_PER_DAY
}

impl Schedule {
    /// Range `i` has a signal at moment `t` on day `day`.
    pub open spec fn slot_of(self, i: int, day: int, t: int) -> bool {
        0 <= i < self.segments@.len() && self.segments@[i].slot(t - day_start(day))
    }

    /// Some range has a signal at moment `t` on one of the days searched.
    pub open spec fn slot(self, t: int) -> bool {
        exists|i: int, day: int| 0 <= day < SEARCH_DAYS && #[trigger] self.slot_of(i, day, t)
    }

    /// `wait` is the time from `now` to the first signal later than
    /// `now + skip`, or `None` where the days searched hold no such signal.
    pub open spec fn next_after(self, now: int, skip: int, wait: Option<u32>) -> bool {
        match wait {
            Some(d) => {
                &&& d > skip
                &&& self.slot(now + d)
                &&& forall|t: int| now + skip < t < now + d ==> !#[trigger] self.slot(t)
            },
            None => forall|t: int| now + skip < t ==> !#[trigger] self.slot(t),
        }
    }

    /// Some live range covers second `t` of the day.
    pub open spec fn active(self, t: int) -> bool {
        exists|i: int| 0 <= i < self.segments@.len() && #[trigger] self.segments@[i].covers(t)
    }

    /// `best` is the wait from `now` among the ranges of the days before `day`
    /// and the first `n` ranges of `day` itself.
    spec fn best_so_far(self, now: int, day: int, n: int, best: Option<u32>) -> bool {
        match best {
            Some(d) => {
                &&& d > 0
                &&& self.slot(now + d)
                &&& forall|i: int, e: int, t: int|
                    0 <= e && (e < day || e == day && i < n) && now < t < now + d
                        ==> !#[trigger] self.slot_of(i, e, t)
            },
            None => forall|i: int, e: int, t: int|
                0 <= e && (e < day || e == day && i < n) && now < t
                    ==> !#[trigger] self.slot_of(i, e, t),
        }
    }

    /// Seconds from `now_sec` to the first signal strictly later.
    ///
    /// `now_sec` counts from local midnight today. The signals of a range are
    /// aligned to its start and lie before its end. The search covers today and
    /// the two days ahead, so that it crosses the nightly gap to the first range
    /// of the morning. From any moment of today or tomorrow the answer is `None`
    /// only if no range is live.
    pub fn seconds_until_next(&self, now_sec: u32) -> (wait: Option<u32>)
        ensures
            self.next_after(now_sec as int, 0, wait),
    {
        let mut best: Option<u32> = None;
        let mut day: u32 = 0;
        while day < SEARCH_DAYS
            invariant
                day <= SEARCH_DAYS,
                self.best_so_far(now_sec as int, day as int, 0, best),
            decreases SEARCH_DAYS - day,
        {
            let base: u32 = day * SECONDS_PER_DAY;
            let mut i: usize = 0;
            while i < self.segments.len()
                invariant
                    day < SEARCH_DAYS,
                    base == day_start(day as int),
                    i <= self.segments.len(),
                    self.best_so_far(now_sec as int, day as int, i as int, best),
                decreases self.segments.len() - i,
            {
                if let Some(t) = self.segments[i].next_slot(base, now_sec) {
                    let delta: u32 = t - now_sec;
                    assert(self.slot_of(i as int, day as int, now_sec + delta));
                    best = match best {
                        Some(b) if b <= delta => Some(b),
                        _ => Some(delta),
                    };
                }
                i = i + 1;
            }
            day = day + 1;
        }
        best
    }

    /// The same wait, but a signal at most `guard_s` seconds ahead of `now_sec`
    /// counts as the current one, already given, and is passed over.
    ///
    /// Drift correction can wake the device a few seconds before a signal; after
    /// the signal is given, the guard keeps it from being scheduled again.
    /// `guard_s` is meant to be shorter than the shortest period, one minute, so
    /// that the following signal is not passed over as well.
    pub fn seconds_until_next_guarded(&self, now_sec: u32, guard_s: u32) -> (wait: Option<u32>)
        requires
            now_sec + guard_s <= u32::MAX,
        ensures
            self.next_after(now_sec as int, guard_s as int, wait),
    {
        match self.seconds_until_next(now_sec + guard_s) {
            Some(d) => {
                proof {
                    self.lemma_slot_bound(now_sec + guard_s + d);
                }
                Some(d + guard_s)
            },
            None => None,
        }
    }

    /// Every signal lies less than 4.2 million seconds after midnight today.
    proof fn lemma_slot_bound(self, t: int)
        requires
            self.slot(t),
        ensures
            0 <= t < 4_200_000,
    {
        let (i, day) = choose|i: int, day: int| 0 <= day < SEARCH_DAYS && #[trigger] self.slot_of(i, day, t);
        assert(self.segments@[i].covers(t - day_start(day)));
    }

    /// Whether `now_sec`, a second of the day, lies inside a live range.
    ///
    /// A timer wake-up gives a signal only then; a wake-up with no signal due
    /// stays silent. The test against the whole range, not the exact signal,
    /// withstands a clock that is minutes late.
    pub fn in_active_segment(&self, now_sec: u32) -> (b: bool)
        ensures
            b == self.active(now_sec as int),
    {
        let mut i: usize = 0;
        while i < self.segments.len()
            invariant
                i <= self.segments.len(),
                forall|j: int| 0 <= j < i ==> !#[trigger] self.segments@[j].covers(now_sec as int),
            decreases self.segments.len() - i,
        {
            let s = &self.segments[i];
            if s.is_live() && now_sec >= s.start_min as u32 * 60 && now_sec < s.end_min as u32
                * 60 {
                assert(self.segments@[i as int].covers(now_sec as int));
                return true;
            }
            i = i + 1;
        }
        false
    }

    /// The schedule of a device that has not been given one: every 7 minutes
    /// from 9:00 to 20:00, every 20 minutes from 20:00 to 23:00, silence at
    /// night.
    pub fn default_demo() -> (s: Schedule)
        ensures
            s.segments@ == demo_segments(),
    {
        Schedule {
            segments: vec![
                Segment { start_min: 9 * 60, end_min: 20 * 60, interval_min: 7, enabled: true },
                Segment { start_min: 20 * 60, end_min: 23 * 60, interval_min: 20, enabled: true },
            ],
        }
    }
}

/// The ranges of the demonstration schedule.
pub open spec fn demo_segments() -> Seq<Segment> {
    seq![
        Segment { start_min: 540, end_min: 1200, interval_min: 7, enabled: true },
        Segment { start_min: 1200, end_min: 1380, interval_min: 20, enabled: true },
    ]
}

impl Default for Schedule {
    /// A schedule without ranges.
    fn default() -> (s: Schedule)
        ensures
            s.segments@ == Seq::<Segment>::empty(),
    {
        Schedule { segments: Vec::new() }
    }
}

} // verus!
