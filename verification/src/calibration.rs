//! Synchronisation with the phone, and learning the rate of drift from it.
//!
//! The phone sends UTC and the offset of its time zone apart. The rate is
//! learned from UTC, which no change of zone or summer time disturbs; the offset
//! goes into the local time that the clock shows.

use vstd::prelude::*;

use crate::bytes::{
    le_signed, le_signed_digits, read_i16, read_i32, read_i64, signed, to_signed, write_i16,
    write_i32, write_i64,
};
use crate::drift::{DriftState, TIME_SET_THRESHOLD, fits};

verus! {

/// Shortest real time between two synchronisations from which a rate is
/// learned, in seconds; over less, whole seconds make the estimate noisy.
pub const MIN_CAL_INTERVAL_S: i64 = 14_400;

/// Largest change of the rate at one synchronisation, in millionths.
pub const MAX_CAL_STEP_PPM: i64 = 20_000;

/// Largest rate; the oscillator keeps within five per cent.
pub const MAX_CAL_PPM: i64 = 50_000;

/// Length of the stored calibration.
pub const CLKCAL_LEN: usize = 14;

/// What is known of the clock: its rate, and when and in which zone it was last
/// set.
#[derive(Debug, Clone, Copy, PartialEq, Eq, Structural)]
pub struct ClockCal {
    /// Rate of the clock in millionths; positive if it is fast.
    pub cal_ppm: i32,
    /// UTC of the last synchronisation, or 0 if no rate can be learned from it.
    pub last_sync_utc: i64,
    /// Offset of the zone at that time, in minutes: local time is UTC plus the
    /// offset.
    pub offset_min: i16,
}

/// What a synchronisation changes.
#[derive(Debug, Clone, Copy, PartialEq, Eq, Structural)]
pub struct SyncOutcome {
    /// Seconds to set the clock to.
    pub clock: u64,
    /// From where drift is corrected from now on.
    pub drift: DriftState,
    /// The calibration to store.
    pub cal: ClockCal,
}

/// The calibration in the bytes `b`: the rate in four bytes, UTC in eight, the
/// offset in two, all signed and little-endian. A shorter blob says nothing and
/// counts as zeros.
pub open spec fn clkcal_of(b: Seq<u8>) -> ClockCal {
    if b.len() >= CLKCAL_LEN {
        ClockCal {
            cal_ppm: le_signed(b.subrange(0, 4)) as i32,
            last_sync_utc: le_signed(b.subrange(4, 12)) as i64,
            offset_min: le_signed(b.subrange(12, 14)) as i16,
        }
    } else {
        ClockCal { cal_ppm: 0, last_sync_utc: 0, offset_min: 0 }
    }
}

/// The bytes in which a calibration is stored.
pub open spec fn clkcal_bytes(c: ClockCal) -> Seq<u8> {
    le_signed_digits(c.cal_ppm as int, 4) + le_signed_digits(c.last_sync_utc as int, 8)
        + le_signed_digits(c.offset_min as int, 2)
}

/// The calibration of a stored blob; zeros if there is none, or if it is too
/// short.
pub fn load_clkcal(blob: Option<&[u8]>) -> (c: ClockCal)
    ensures
        c == match blob {
            Some(b) => clkcal_of(b@),
            None => clkcal_of(Seq::empty()),
        },
{
    match blob {
        Some(b) => if b.len() >= CLKCAL_LEN {
            ClockCal {
                cal_ppm: read_i32(b, 0),
                last_sync_utc: read_i64(b, 4),
                offset_min: read_i16(b, 12),
            }
        } else {
            ClockCal { cal_ppm: 0, last_sync_utc: 0, offset_min: 0 }
        },
        None => ClockCal { cal_ppm: 0, last_sync_utc: 0, offset_min: 0 },
    }
}

/// The blob to store for a calibration.
pub fn store_clkcal(c: &ClockCal) -> (b: Vec<u8>)
    ensures
        b@ == clkcal_bytes(*c),
{
    let mut b: Vec<u8> = Vec::new();
    write_i32(&mut b, c.cal_ppm);
    write_i64(&mut b, c.last_sync_utc);
    write_i16(&mut b, c.offset_min);
    assert(b@ =~= clkcal_bytes(*c));
    b
}

/// `x` held within `-bound..=bound`.
pub open spec fn clamped(x: int, bound: int) -> int {
    if x < -bound {
        -bound
    } else if x > bound {
        bound
    } else {
        x
    }
}

/// The quotient of `a` and a positive `b`, rounded towards zero.
pub open spec fn quotient(a: int, b: int) -> int {
    if a >= 0 {
        a / b
    } else {
        -((-a) / b)
    }
}

impl ClockCal {
    /// A rate can be learned from a clock that shows `dev_local`: it was set by
    /// an earlier synchronisation and has not been lost since.
    pub open spec fn usable(self, dev_local: int) -> bool {
        self.last_sync_utc >= TIME_SET_THRESHOLD && dev_local >= TIME_SET_THRESHOLD
    }

    /// UTC as the device sees it when its clock shows `dev_local`, by the offset
    /// that held since the last synchronisation.
    pub open spec fn device_utc(self, dev_local: int) -> int {
        dev_local - self.offset_min * 60
    }

    /// Real time since the last synchronisation is long enough to learn from.
    pub open spec fn long_enough(self, utc: int) -> bool {
        utc - self.last_sync_utc >= MIN_CAL_INTERVAL_S
    }

    /// The rate that remains uncorrected, in millionths: by how much the device
    /// is ahead of UTC, over the real time since the last synchronisation.
    pub open spec fn residual_ppm(self, dev_local: int, utc: int) -> int {
        quotient((self.device_utc(dev_local) - utc) * 1_000_000, utc - self.last_sync_utc)
    }

    /// The rate after a synchronisation at `utc` that finds the clock at
    /// `dev_local`. Where a rate can be learned it moves by the remaining rate,
    /// as a 64-bit number, within the bounds on the step and on the rate.
    pub open spec fn learned_ppm(self, dev_local: int, utc: int) -> int {
        if self.usable(dev_local) && self.long_enough(utc) {
            clamped(
                self.cal_ppm + clamped(
                    (self.residual_ppm(dev_local, utc) as i64) as int,
                    MAX_CAL_STEP_PPM as int,
                ),
                MAX_CAL_PPM as int,
            )
        } else {
            self.cal_ppm as int
        }
    }

    /// The numbers of a synchronisation fit into 64 bits.
    pub open spec fn sync_in_range(self, dev_local: int, utc: int, offset_min: int) -> bool {
        &&& self.usable(dev_local) ==> fits(self.device_utc(dev_local)) && fits(
            utc - self.last_sync_utc,
        )
        &&& fits(utc + offset_min * 60)
    }

    /// `out` is the outcome of a synchronisation at `utc`, in a zone `offset_min`
    /// minutes ahead of UTC, that finds the clock at `dev_local`: the rate is
    /// learned, the clock is set to local time, or to zero if that lies before
    /// the epoch, and drift is counted anew from there.
    pub open spec fn synced(
        self,
        dev_local: int,
        utc: int,
        offset_min: int,
        out: SyncOutcome,
    ) -> bool {
        let local = utc + offset_min * 60;
        &&& out.cal.cal_ppm == self.learned_ppm(dev_local, utc)
        &&& out.cal.last_sync_utc == utc
        &&& out.cal.offset_min == offset_min
        &&& out.drift.checkpoint == local
        &&& out.drift.remainder == 0
        &&& out.clock == if local < 0 {
            0
        } else {
            local
        }
    }

    /// `out` is the outcome of a synchronisation that gives local time alone: the
    /// clock is set, drift is counted anew from there, the rate is kept, and
    /// nothing is left from which the next synchronisation could learn.
    pub open spec fn synced_local(self, local_epoch: u64, out: SyncOutcome) -> bool {
        &&& out.cal == (ClockCal { cal_ppm: self.cal_ppm, last_sync_utc: 0, offset_min: 0 })
        &&& out.drift.checkpoint == signed(local_epoch as int, 8)
        &&& out.drift.remainder == 0
        &&& out.clock == local_epoch
    }

    /// Whether [`on_time_sync`](ClockCal::on_time_sync) may be called.
    pub fn can_sync(&self, dev_local: i64, utc_epoch: u64, offset_min: i16) -> (b: bool)
        ensures
            b == self.sync_in_range(
                dev_local as int,
                signed(utc_epoch as int, 8),
                offset_min as int,
            ),
    {
        let utc: i64 = to_signed(utc_epoch);
        if self.last_sync_utc >= TIME_SET_THRESHOLD && dev_local >= TIME_SET_THRESHOLD {
            if dev_local.checked_sub(self.offset_min as i64 * 60).is_none() || utc.checked_sub(
                self.last_sync_utc,
            ).is_none() {
                return false;
            }
        }
        utc.checked_add(offset_min as i64 * 60).is_some()
    }

    /// The rate after a synchronisation at `utc` that finds the clock at
    /// `dev_local`.
    fn learn(&self, dev_local: i64, utc: i64) -> (ppm: i32)
        requires
            self.usable(dev_local as int) ==> fits(self.device_utc(dev_local as int)) && fits(
                utc - self.last_sync_utc,
            ),
        ensures
            ppm == self.learned_ppm(dev_local as int, utc as int),
    {
        if !(self.last_sync_utc >= TIME_SET_THRESHOLD && dev_local >= TIME_SET_THRESHOLD) {
            return self.cal_ppm;
        }
        let dev_utc: i64 = dev_local - self.offset_min as i64 * 60;
        let real_elapsed: i64 = utc - self.last_sync_utc;
        if real_elapsed < MIN_CAL_INTERVAL_S {
            return self.cal_ppm;
        }
        let dev_error: i64 = dev_utc - utc;
        let wide: i128 = dev_error as i128 * 1_000_000;
        let residual: i64 = (if wide >= 0 {
            wide / real_elapsed as i128
        } else {
            -(-wide / real_elapsed as i128)
        }) as i64;
        let step: i64 = clamp_to(residual, MAX_CAL_STEP_PPM);
        clamp_to(self.cal_ppm as i64 + step, MAX_CAL_PPM) as i32
    }

    /// A synchronisation at `utc_epoch` in a zone `offset_min` minutes ahead of
    /// UTC, which finds the clock at `dev_local`: learns the rate, sets local
    /// time, and starts the correction of drift anew from there.
    pub fn on_time_sync(&self, dev_local: i64, utc_epoch: u64, offset_min: i16) -> (out: SyncOutcome)
        requires
            self.sync_in_range(dev_local as int, signed(utc_epoch as int, 8), offset_min as int),
        ensures
            self.synced(dev_local as int, signed(utc_epoch as int, 8), offset_min as int, out),
    {
        let utc: i64 = to_signed(utc_epoch);
        let cal_ppm: i32 = self.learn(dev_local, utc);
        let new_local: i64 = utc + offset_min as i64 * 60;
        SyncOutcome {
            clock: if new_local < 0 {
                0
            } else {
                new_local as u64
            },
            drift: DriftState { checkpoint: new_local, remainder: 0 },
            cal: ClockCal { cal_ppm, last_sync_utc: utc, offset_min },
        }
    }

    /// A synchronisation by a phone that sends local time alone: sets the clock
    /// and keeps the rate, but learns none, now or at the next synchronisation.
    pub fn on_time_sync_legacy(&self, local_epoch: u64) -> (out: SyncOutcome)
        ensures
            self.synced_local(local_epoch, out),
    {
        SyncOutcome {
            clock: local_epoch,
            drift: DriftState { checkpoint: to_signed(local_epoch), remainder: 0 },
            cal: ClockCal { cal_ppm: self.cal_ppm, last_sync_utc: 0, offset_min: 0 },
        }
    }
}

/// `x` held within `-bound..=bound`.
fn clamp_to(x: i64, bound: i64) -> (r: i64)
    requires
        0 <= bound,
    ensures
        r == clamped(x as int, bound as int),
{
    if x < -bound {
        -bound
    } else if x > bound {
        bound
    } else {
        x
    }
}

} // verus!
