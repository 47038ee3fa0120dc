//! The clock of the device and the correction of its drift.
//!
//! The device keeps local time with an oscillator that runs a little fast or
//! slow. The known rate is `cal_ppm`, in millionths: a positive rate means that
//! the clock is fast. After every sleep the clock is set back by what it gained
//! since it was last corrected.

use vstd::prelude::*;

use crate::schedule::SECONDS_PER_DAY;

verus! {

/// A clock below this reading (September 2020) has never been set.
pub const TIME_SET_THRESHOLD: i64 = 1_600_000_000;

/// Time of day in seconds (`0..86400`) of a clock that shows `clock` seconds, or
/// `None` if the clock has not been set.
pub fn now_local_sec(clock: i64) -> (now: Option<u32>)
    ensures
        now is None <==> clock < TIME_SET_THRESHOLD,
        now is Some ==> now->0 == clock % SECONDS_PER_DAY as i64,
        now is Some ==> now->0 < SECONDS_PER_DAY,
{
    if clock < TIME_SET_THRESHOLD {
        None
    } else {
        Some((clock as u64 % SECONDS_PER_DAY as u64) as u32)
    }
}

/// `x` is the value of some `i64`.
pub open spec fn fits(x: int) -> bool {
    i64::MIN <= x <= i64::MAX
}

/// What the correction remembers from one wake-up to the next.
#[derive(Debug, Clone, Copy, PartialEq, Eq, Structural)]
pub struct DriftState {
    /// Reading of the corrected clock at the last correction or
    /// synchronisation; 0 if there was none.
    pub checkpoint: i64,
    /// Drift not yet taken off the clock, in millionths of a second. The clock
    /// is corrected by whole seconds; what is left is carried over.
    pub remainder: i64,
}

/// What a wake-up does about drift.
#[derive(Debug, Clone, Copy, PartialEq, Eq, Structural)]
pub struct Correction {
    /// What to remember for the next wake-up.
    pub state: DriftState,
    /// The seconds to set the clock to, if it is to be set.
    pub clock: Option<i64>,
}

impl DriftState {
    /// The remainder is less than a second.
    pub open spec fn wf(self) -> bool {
        0 <= self.remainder < 1_000_000
    }

    /// There is a checkpoint, and the clock, once set, has run on since.
    pub open spec fn due(self, now: int) -> bool {
        now >= TIME_SET_THRESHOLD && self.checkpoint != 0 && now > self.checkpoint
    }

    /// Drift gathered up to the reading `now`, in millionths of a second.
    pub open spec fn gathered(self, now: int, cal_ppm: int) -> int {
        self.remainder + (now - self.checkpoint) * cal_ppm
    }

    /// Whole seconds by which a clock that shows `now` is ahead.
    pub open spec fn excess(self, now: int, cal_ppm: int) -> int {
        self.gathered(now, cal_ppm) / 1_000_000
    }

    /// The numbers of the correction fit into 64 bits.
    pub open spec fn in_range(self, now: int, cal_ppm: int) -> bool {
        now >= TIME_SET_THRESHOLD && self.checkpoint != 0 ==> {
            &&& fits(now - self.checkpoint)
            &&& now > self.checkpoint ==> {
                &&& fits((now - self.checkpoint) * cal_ppm)
                &&& fits(self.gathered(now, cal_ppm))
                &&& fits(now - self.excess(now, cal_ppm))
            }
        }
    }

    /// `next` is the state after a wake-up at which the clock showed `now`.
    ///
    /// A clock never set changes nothing, nor does one that has not run since
    /// the checkpoint. A set clock without checkpoint becomes the checkpoint.
    /// Otherwise the checkpoint is the corrected reading, and what falls short
    /// of a second is carried over.
    pub open spec fn advances_to(self, now: int, cal_ppm: int, next: DriftState) -> bool {
        if self.due(now) {
            &&& next.checkpoint == now - self.excess(now, cal_ppm)
            &&& next.remainder == self.gathered(now, cal_ppm) % 1_000_000
        } else if now >= TIME_SET_THRESHOLD && self.checkpoint == 0 {
            next.checkpoint == now && next.remainder == 0
        } else {
            next == self
        }
    }

    /// Whether [`apply_drift_correction`](DriftState::apply_drift_correction)
    /// may be called.
    pub fn can_correct(&self, now: i64, cal_ppm: i32) -> (b: bool)
        ensures
            b == self.in_range(now as int, cal_ppm as int),
    {
        if now < TIME_SET_THRESHOLD || self.checkpoint == 0 {
            return true;
        }
        match now.checked_sub(self.checkpoint) {
            None => false,
            Some(raw_delta) => if raw_delta <= 0 {
                true
            } else {
                match raw_delta.checked_mul(cal_ppm as i64) {
                    None => false,
                    Some(drift) => match self.remainder.checked_add(drift) {
                        None => false,
                        Some(acc) => now.checked_sub(
                            acc.checked_div_euclid(1_000_000).unwrap(),
                        ).is_some(),
                    },
                }
            },
        }
    }

    /// Corrects a clock that shows `now` right after waking, before the schedule
    /// is consulted.
    pub fn apply_drift_correction(&self, now: i64, cal_ppm: i32) -> (c: Correction)
        requires
            self.in_range(now as int, cal_ppm as int),
        ensures
            self.advances_to(now as int, cal_ppm as int, c.state),
            c.clock == if self.due(now as int) && self.excess(now as int, cal_ppm as int) != 0 {
                Some(c.state.checkpoint)
            } else {
                None::<i64>
            },
            self.wf() ==> c.state.wf(),
            now >= 1_600_000_000 && self.checkpoint != 0 && now > self.checkpoint ==> {
                &&& c.clock is None <==> c.state.checkpoint == now
                &&& c.clock is Some ==> c.clock->0 == c.state.checkpoint
            },
    {
        if now < TIME_SET_THRESHOLD {
            return Correction { state: *self, clock: None };
        }
        if self.checkpoint == 0 {
            return Correction { state: DriftState { checkpoint: now, remainder: 0 }, clock: None };
        }
        let raw_delta: i64 = now - self.checkpoint;
        if raw_delta <= 0 {
            return Correction { state: *self, clock: None };
        }
        let acc: i64 = self.remainder + raw_delta * cal_ppm as i64;
        let corr: i64 = acc.checked_div_euclid(1_000_000).unwrap();
        let remainder: i64 = acc.checked_rem_euclid(1_000_000).unwrap();
        if corr == 0 {
            return Correction { state: DriftState { checkpoint: now, remainder }, clock: None };
        }
        let corrected: i64 = now - corr;
        Correction {
            state: DriftState { checkpoint: corrected, remainder },
            clock: Some(corrected),
        }
    }
}

} // verus!
