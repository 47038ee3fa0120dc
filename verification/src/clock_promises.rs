//! What the functions of the clock promise, in the numbers that go in and come
//! out: the correction of drift, synchronisation, learning, stored bytes and
//! messages.

use vstd::prelude::*;

use crate::bytes::{le_signed, le_value, lemma_pow256, signed, to_signed};
use crate::calibration::{
    ClockCal, SyncOutcome, clkcal_of, load_clkcal, quotient, store_clkcal,
};
use crate::clock_laws::law_clkcal_round_trip;
use crate::drift::{Correction, DriftState, now_local_sec};
use crate::message::{TimeMessage, accept_time_write, parse_time};

verus! {

/// The time of day is unknown below the threshold; else it is what is left of the
/// reading after whole days.
pub proof fn law_now_local_sec(clock: i64, now: Option<u32>) -> (days: int)
    requires
        call_ensures(now_local_sec, (clock,), now),
    ensures
        now is Some <==> clock >= 1_600_000_000,
        now is Some ==> now->0 < 86_400 && clock == 86_400 * days + now->0,
{
    clock as int / 86_400
}

/// A clock that was never set, or that has not run on since the checkpoint, is left
/// alone; a set clock without a checkpoint becomes the checkpoint.
pub proof fn law_nothing_to_correct(s: DriftState, now: i64, cal_ppm: i32, c: Correction)
    requires
        call_ensures(DriftState::apply_drift_correction, (&s, now, cal_ppm), c),
        now < 1_600_000_000 || s.checkpoint == 0 || now <= s.checkpoint,
    ensures
        c.clock is None,
        now >= 1_600_000_000 && s.checkpoint == 0 ==> c.state.checkpoint == now
            && c.state.remainder == 0,
        now < 1_600_000_000 || s.checkpoint != 0 ==> c.state == s,
{
}

/// After a correction the clock shows the checkpoint, whether it was set or not.
pub proof fn law_clock_shows_checkpoint(s: DriftState, now: i64, cal_ppm: i32, c: Correction)
    requires
        call_ensures(DriftState::apply_drift_correction, (&s, now, cal_ppm), c),
        now >= 1_600_000_000,
        s.checkpoint != 0,
        now > s.checkpoint,
    ensures
        c.state.checkpoint == match c.clock {
            Some(set_to) => set_to,
            None => now,
        },
        c.clock is None <==> c.state.checkpoint == now,
{
}

/// A correction takes off the whole drift of the time run: what is taken off the
/// clock, in millionths, and the new remainder are the drift of that time and the
/// old remainder, and the new remainder is less than a second.
pub proof fn law_correction_takes_off_the_drift(
    s: DriftState,
    now: i64,
    cal_ppm: i32,
    c: Correction,
)
    requires
        call_ensures(DriftState::apply_drift_correction, (&s, now, cal_ppm), c),
        now >= 1_600_000_000,
        s.checkpoint != 0,
        now > s.checkpoint,
    ensures
        1_000_000 * (now - c.state.checkpoint) + c.state.remainder == s.remainder + (now
            - s.checkpoint) * cal_ppm,
        0 <= c.state.remainder < 1_000_000,
{
}

/// A correction is possible for any rate within five per cent, any remainder below
/// a second, and readings within more than a million years of the epoch, and the
/// test for it says so.
pub proof fn law_correction_is_possible(s: DriftState, now: i64, cal_ppm: i32, b: bool)
    requires
        -50_000 <= cal_ppm <= 50_000,
        0 <= s.remainder < 1_000_000,
        -0x4000_0000_0000 <= s.checkpoint <= 0x4000_0000_0000,
        now <= 0x4000_0000_0000,
        call_ensures(DriftState::can_correct, (&s, now, cal_ppm), b),
    ensures
        call_requires(DriftState::apply_drift_correction, (&s, now, cal_ppm)),
        b,
{
    if now >= 1_600_000_000 && s.checkpoint != 0 && now > s.checkpoint {
        let ran = now - s.checkpoint;
        assert(-50_000 * 0x8000_0000_0000 <= ran * cal_ppm <= 50_000 * 0x8000_0000_0000) by (
        nonlinear_arith)
            requires
                0 <= ran <= 0x8000_0000_0000,
                -50_000 <= cal_ppm <= 50_000,
        ;
    }
}

/// A test that allows the correction allows the call.
pub proof fn law_tested_correction_may_be_called(s: DriftState, now: i64, cal_ppm: i32)
    requires
        call_ensures(DriftState::can_correct, (&s, now, cal_ppm), true),
    ensures
        call_requires(DriftState::apply_drift_correction, (&s, now, cal_ppm)),
{
}

/// The 64-bit pattern of UTC is read as a signed number.
proof fn lemma_signed64(u: u64, v: int)
    requires
        v == u || v == u - 0x1_0000_0000_0000_0000,
        -0x8000_0000_0000_0000 <= v < 0x8000_0000_0000_0000,
    ensures
        signed(u as int, 8) == v,
{
    lemma_pow256();
}

/// A 64-bit pattern and its signed reading differ by nothing or by two to the
/// power of 64.
pub proof fn law_to_signed(u: u64, v: i64)
    requires
        call_ensures(to_signed, (u,), v),
    ensures
        v == u || v == u - 0x1_0000_0000_0000_0000,
{
    lemma_pow256();
}

/// After a synchronisation the clock shows local time, UTC plus the offset, for
/// every offset; drift is counted from there; UTC and offset are stored. A local
/// time before the epoch sets the clock to zero.
pub proof fn law_sync_sets_local_time(
    c: ClockCal,
    dev_local: i64,
    utc_epoch: u64,
    offset_min: i16,
    utc: int,
    out: SyncOutcome,
)
    requires
        call_ensures(ClockCal::on_time_sync, (&c, dev_local, utc_epoch, offset_min), out),
        utc == utc_epoch || utc == utc_epoch - 0x1_0000_0000_0000_0000,
        -0x8000_0000_0000_0000 <= utc < 0x8000_0000_0000_0000,
    ensures
        utc + 60 * offset_min >= 0 ==> out.clock == utc + 60 * offset_min,
        utc + 60 * offset_min >= 0 ==> out.clock == out.drift.checkpoint,
        utc + 60 * offset_min < 0 ==> out.clock == 0,
        out.drift.checkpoint == utc + 60 * offset_min,
        out.drift.remainder == 0,
        out.cal.last_sync_utc == utc,
        out.cal.offset_min == offset_min,
{
    lemma_signed64(utc_epoch, utc);
}

/// Two offsets set two clocks that differ by just the difference of the offsets.
pub proof fn law_offsets_shift_the_clock(
    c: ClockCal,
    dev_local: i64,
    utc_epoch: u64,
    offset_a: i16,
    offset_b: i16,
    a: SyncOutcome,
    b: SyncOutcome,
)
    requires
        call_ensures(ClockCal::on_time_sync, (&c, dev_local, utc_epoch, offset_a), a),
        call_ensures(ClockCal::on_time_sync, (&c, dev_local, utc_epoch, offset_b), b),
        2_000_000 <= utc_epoch < 0x8000_0000_0000_0000,
    ensures
        a.clock - b.clock == 60 * (offset_a - offset_b),
        a.drift.checkpoint - b.drift.checkpoint == 60 * (offset_a - offset_b),
        a.cal.cal_ppm == b.cal.cal_ppm,
{
    lemma_signed64(utc_epoch, utc_epoch as int);
}

/// A number `r` and a 64-bit number `w` that differ by a multiple of two to the
/// power of 64 have the same low bits.
proof fn lemma_wrapped(r: i128, w: i64, m: i64)
    by (bit_vector)
    requires
        r == w + m * 0x1_0000_0000_0000_0000,
    ensures
        r as i64 == w,
{
}

/// `r` is the quotient rounded towards zero if its multiple of `e` is nearer to
/// zero than `x` by less than `e`.
proof fn lemma_rounded_towards_zero(x: int, e: int, r: int)
    requires
        e > 0,
        x >= 0 ==> r >= 0 && r * e <= x < (r + 1) * e,
        x < 0 ==> r <= 0 && (r - 1) * e < x <= r * e,
    ensures
        quotient(x, e) == r,
{
    if x >= 0 {
        assert((r + 1) * e == r * e + e) by (nonlinear_arith);
        vstd::arithmetic::div_mod::lemma_fundamental_div_mod_converse(x, e, r, x - r * e);
    } else {
        assert((r - 1) * e == r * e - e) by (nonlinear_arith);
        assert((-r) * e == -(r * e)) by (nonlinear_arith);
        vstd::arithmetic::div_mod::lemma_fundamental_div_mod_converse(
            -x,
            e,
            -r,
            -x - (-r) * e,
        );
    }
}

proof fn lemma_learned(
    c: ClockCal,
    dev_local: int,
    utc: int,
    r: int,
    w: i64,
    m: i64,
)
    requires
        c.last_sync_utc >= 1_600_000_000,
        dev_local >= 1_600_000_000,
        utc - c.last_sync_utc >= 14_400,
        ({
            let ahead = (dev_local - 60 * c.offset_min - utc) * 1_000_000;
            let elapsed = utc - c.last_sync_utc;
            &&& ahead >= 0 ==> r >= 0 && r * elapsed <= ahead < (r + 1) * elapsed
            &&& ahead < 0 ==> r <= 0 && (r - 1) * elapsed < ahead <= r * elapsed
        }),
        i128::MIN <= r <= i128::MAX,
        r == w + m * 0x1_0000_0000_0000_0000,
    ensures
        c.learned_ppm(dev_local, utc) == vstd::math::max(
            -50_000,
            vstd::math::min(
                50_000,
                c.cal_ppm + vstd::math::max(-20_000, vstd::math::min(20_000, w as int)),
            ),
        ),
{
    let ahead = (dev_local - 60 * c.offset_min - utc) * 1_000_000;
    lemma_rounded_towards_zero(ahead, utc - c.last_sync_utc, r);
    assert(c.residual_ppm(dev_local, utc) == r);
    let wide = r as i128;
    assert(wide == r);
    lemma_wrapped(wide, w, m);
    assert((r as i64) == w);
}

/// Whenever the clock was set by an earlier synchronisation at least four hours
/// ago, however long ago, and was not lost since, the rate moves by what the
/// device is ahead of UTC, in millionths of the time since, rounded towards zero,
/// by at most 20000 at once and never beyond 50000.
///
/// `r` is that quotient and `w` its low 64 bits, which is `r` itself unless the
/// clock is absurdly far ahead.
pub proof fn law_sync_learns(
    c: ClockCal,
    dev_local: i64,
    utc_epoch: u64,
    offset_min: i16,
    utc: int,
    r: int,
    w: i64,
    m: i64,
    out: SyncOutcome,
)
    requires
        call_ensures(ClockCal::on_time_sync, (&c, dev_local, utc_epoch, offset_min), out),
        utc == utc_epoch || utc == utc_epoch - 0x1_0000_0000_0000_0000,
        -0x8000_0000_0000_0000 <= utc < 0x8000_0000_0000_0000,
        c.last_sync_utc >= 1_600_000_000,
        dev_local >= 1_600_000_000,
        utc - c.last_sync_utc >= 14_400,
        ({
            let ahead = (dev_local - 60 * c.offset_min - utc) * 1_000_000;
            let elapsed = utc - c.last_sync_utc;
            &&& ahead >= 0 ==> r >= 0 && r * elapsed <= ahead < (r + 1) * elapsed
            &&& ahead < 0 ==> r <= 0 && (r - 1) * elapsed < ahead <= r * elapsed
        }),
        i128::MIN <= r <= i128::MAX,
        r == w + m * 0x1_0000_0000_0000_0000,
    ensures
        out.cal.cal_ppm == vstd::math::max(
            -50_000,
            vstd::math::min(
                50_000,
                c.cal_ppm + vstd::math::max(-20_000, vstd::math::min(20_000, w as int)),
            ),
        ),
{
    lemma_signed64(utc_epoch, utc);
    lemma_learned(c, dev_local as int, utc, r, w, m);
}

/// A device that gained `rate` millionths of the time since the last
/// synchronisation adds just that to its rate, within the bounds.
pub proof fn law_sync_learns_the_rate(
    c: ClockCal,
    dev_local: i64,
    utc_epoch: u64,
    offset_min: i16,
    rate: int,
    out: SyncOutcome,
)
    requires
        call_ensures(ClockCal::on_time_sync, (&c, dev_local, utc_epoch, offset_min), out),
        utc_epoch < 0x8000_0000_0000_0000,
        c.last_sync_utc >= 1_600_000_000,
        dev_local >= 1_600_000_000,
        utc_epoch - c.last_sync_utc >= 14_400,
        (dev_local - 60 * c.offset_min - utc_epoch) * 1_000_000 == rate * (utc_epoch
            - c.last_sync_utc),
        -20_000 <= rate <= 20_000,
        -50_000 <= c.cal_ppm + rate <= 50_000,
    ensures
        out.cal.cal_ppm == c.cal_ppm + rate,
{
    lemma_signed64(utc_epoch, utc_epoch as int);
    crate::clock_laws::law_learns_the_rate(c, dev_local as int, utc_epoch as int, rate);
}

/// Nothing is learned without an earlier synchronisation, from a clock that was
/// lost, or within four hours: the rate stays.
pub proof fn law_sync_keeps_the_rate(
    c: ClockCal,
    dev_local: i64,
    utc_epoch: u64,
    offset_min: i16,
    utc: int,
    out: SyncOutcome,
)
    requires
        call_ensures(ClockCal::on_time_sync, (&c, dev_local, utc_epoch, offset_min), out),
        utc == utc_epoch || utc == utc_epoch - 0x1_0000_0000_0000_0000,
        -0x8000_0000_0000_0000 <= utc < 0x8000_0000_0000_0000,
        c.last_sync_utc < 1_600_000_000 || dev_local < 1_600_000_000 || utc - c.last_sync_utc
            < 14_400,
    ensures
        out.cal.cal_ppm == c.cal_ppm,
{
    lemma_signed64(utc_epoch, utc);
}

/// A synchronisation is possible for readings within billions of years of the
/// epoch, and the test for it says so.
pub proof fn law_sync_is_possible(
    c: ClockCal,
    dev_local: i64,
    utc_epoch: u64,
    offset_min: i16,
    b: bool,
)
    requires
        call_ensures(ClockCal::can_sync, (&c, dev_local, utc_epoch, offset_min), b),
        dev_local <= 0x4000_0000_0000_0000,
        utc_epoch <= 0x4000_0000_0000_0000,
    ensures
        call_requires(ClockCal::on_time_sync, (&c, dev_local, utc_epoch, offset_min)),
        b,
{
    lemma_signed64(utc_epoch, utc_epoch as int);
}

/// A test that allows the synchronisation allows the call.
pub proof fn law_tested_sync_may_be_called(
    c: ClockCal,
    dev_local: i64,
    utc_epoch: u64,
    offset_min: i16,
)
    requires
        call_ensures(ClockCal::can_sync, (&c, dev_local, utc_epoch, offset_min), true),
    ensures
        call_requires(ClockCal::on_time_sync, (&c, dev_local, utc_epoch, offset_min)),
{
}

/// Local time alone sets the clock and the checkpoint to it, keeps the rate, and
/// leaves no time from which to learn.
pub proof fn law_legacy_sync(c: ClockCal, local_epoch: u64, out: SyncOutcome)
    requires
        call_ensures(ClockCal::on_time_sync_legacy, (&c, local_epoch), out),
    ensures
        out.clock == local_epoch,
        out.drift.checkpoint == local_epoch || out.drift.checkpoint == local_epoch
            - 0x1_0000_0000_0000_0000,
        out.drift.remainder == 0,
        out.cal.cal_ppm == c.cal_ppm,
        out.cal.last_sync_utc == 0,
        out.cal.offset_min == 0,
{
    lemma_pow256();
}

/// The digits of two bytes.
proof fn lemma_two_digits(s: Seq<u8>)
    requires
        s.len() == 2,
    ensures
        le_value(s) == s[0] + 0x100 * s[1],
        le_signed(s) == s[0] + 0x100 * s[1] - if s[1] >= 128 {
            0x1_0000int
        } else {
            0
        },
{
    reveal_with_fuel(le_value, 3);
    lemma_pow256();
}

/// The digits of four bytes.
proof fn lemma_four_digits(s: Seq<u8>)
    requires
        s.len() == 4,
    ensures
        le_value(s) == s[0] + 0x100 * s[1] + 0x1_0000 * s[2] + 0x100_0000 * s[3],
        le_signed(s) == s[0] + 0x100 * s[1] + 0x1_0000 * s[2] + 0x100_0000 * s[3] - if s[3] >= 128 {
            0x1_0000_0000int
        } else {
            0
        },
{
    reveal_with_fuel(le_value, 5);
    lemma_pow256();
}

/// The digits of eight bytes.
proof fn lemma_eight_digits(s: Seq<u8>)
    requires
        s.len() == 8,
    ensures
        le_value(s) == s[0] + 0x100 * s[1] + 0x1_0000 * s[2] + 0x100_0000 * s[3] + 0x1_0000_0000
            * s[4] + 0x100_0000_0000 * s[5] + 0x1_0000_0000_0000 * s[6] + 0x100_0000_0000_0000
            * s[7],
        le_signed(s) == le_value(s) - if s[7] >= 128 {
            0x1_0000_0000_0000_0000int
        } else {
            0
        },
{
    reveal_with_fuel(le_value, 9);
    lemma_pow256();
}

proof fn lemma_clkcal_layout(b: Seq<u8>)
    requires
        b.len() >= 14,
    ensures
        clkcal_of(b).cal_ppm == b[0] + 0x100 * b[1] + 0x1_0000 * b[2] + 0x100_0000 * b[3] - if b[3]
            >= 128 {
            0x1_0000_0000int
        } else {
            0
        },
        clkcal_of(b).last_sync_utc == b[4] + 0x100 * b[5] + 0x1_0000 * b[6] + 0x100_0000 * b[7]
            + 0x1_0000_0000 * b[8] + 0x100_0000_0000 * b[9] + 0x1_0000_0000_0000 * b[10]
            + 0x100_0000_0000_0000 * b[11] - if b[11] >= 128 {
            0x1_0000_0000_0000_0000int
        } else {
            0
        },
        clkcal_of(b).offset_min == b[12] + 0x100 * b[13] - if b[13] >= 128 {
            0x1_0000int
        } else {
            0
        },
{
    lemma_four_digits(b.subrange(0, 4));
    lemma_eight_digits(b.subrange(4, 12));
    lemma_two_digits(b.subrange(12, 14));
}

/// A stored calibration of at least 14 bytes holds the rate in the first four, UTC
/// in the next eight and the offset in the next two, little-endian and in two's
/// complement; a shorter one, or none, is read as zeros.
pub proof fn law_load_clkcal(blob: Option<&[u8]>, c: ClockCal)
    requires
        call_ensures(load_clkcal, (blob,), c),
    ensures
        blob is None || blob->0@.len() < 14 ==> c.cal_ppm == 0 && c.last_sync_utc == 0
            && c.offset_min == 0,
        blob is Some && blob->0@.len() >= 14 ==> ({
            let b = blob->0@;
            &&& c.cal_ppm == b[0] + 0x100 * b[1] + 0x1_0000 * b[2] + 0x100_0000 * b[3] - if b[3]
                >= 128 {
                0x1_0000_0000int
            } else {
                0
            }
            &&& c.last_sync_utc == b[4] + 0x100 * b[5] + 0x1_0000 * b[6] + 0x100_0000 * b[7]
                + 0x1_0000_0000 * b[8] + 0x100_0000_0000 * b[9] + 0x1_0000_0000_0000 * b[10]
                + 0x100_0000_0000_0000 * b[11] - if b[11] >= 128 {
                0x1_0000_0000_0000_0000int
            } else {
                0
            }
            &&& c.offset_min == b[12] + 0x100 * b[13] - if b[13] >= 128 {
                0x1_0000int
            } else {
                0
            }
        }),
{
    if blob is Some && blob->0@.len() >= 14 {
        lemma_clkcal_layout(blob->0@);
    }
}

/// A calibration is stored in 14 bytes from which the same calibration is loaded.
pub proof fn law_store_then_load(c: ClockCal, b: Vec<u8>, blob: &[u8], d: ClockCal)
    requires
        call_ensures(store_clkcal, (&c,), b),
        blob@ == b@,
        call_ensures(load_clkcal, (Some(blob),), d),
    ensures
        b@.len() == 14,
        d == c,
{
    law_clkcal_round_trip(c);
}

/// A message of at least ten bytes holds UTC in the first eight and the signed
/// offset in the next two; a shorter one holds local time in the first eight.
pub proof fn law_parse_time(b: &[u8], m: TimeMessage)
    requires
        call_ensures(parse_time, (b,), m),
        b@.len() >= 8,
    ensures
        ({
            let first = b@[0] + 0x100 * b@[1] + 0x1_0000 * b@[2] + 0x100_0000 * b@[3]
                + 0x1_0000_0000 * b@[4] + 0x100_0000_0000 * b@[5] + 0x1_0000_0000_0000 * b@[6]
                + 0x100_0000_0000_0000 * b@[7];
            match m {
                TimeMessage::Zoned { utc_epoch, offset_min } => {
                    &&& b@.len() >= 10
                    &&& utc_epoch == first
                    &&& offset_min == b@[8] + 0x100 * b@[9] - if b@[9] >= 128 {
                        0x1_0000int
                    } else {
                        0
                    }
                },
                TimeMessage::Local { local_epoch } => b@.len() < 10 && local_epoch == first,
            }
        }),
        call_requires(parse_time, (b,)),
{
    lemma_eight_digits(b@.subrange(0, 8));
    if b@.len() >= 10 {
        lemma_two_digits(b@.subrange(8, 10));
    }
}

/// A write of at least eight bytes replaces the message that waits; a shorter one
/// leaves it as it was.
pub proof fn law_accept_time_write(pending: Option<Vec<u8>>, data: Vec<u8>, kept: Option<Vec<u8>>)
    requires
        call_ensures(accept_time_write, (pending, data), kept),
    ensures
        data@.len() >= 8 ==> kept == Some(data),
        data@.len() < 8 ==> kept == pending,
{
}

/// A message does what the synchronisation that it stands for does.
pub proof fn law_message_is_its_synchronisation(
    m: TimeMessage,
    c: ClockCal,
    dev_local: i64,
    out: SyncOutcome,
    by_sync: SyncOutcome,
)
    requires
        call_ensures(TimeMessage::apply, (&m, &c, dev_local), out),
        match m {
            TimeMessage::Zoned { utc_epoch, offset_min } => call_ensures(
                ClockCal::on_time_sync,
                (&c, dev_local, utc_epoch, offset_min),
                by_sync,
            ),
            TimeMessage::Local { local_epoch } => call_ensures(
                ClockCal::on_time_sync_legacy,
                (&c, local_epoch),
                by_sync,
            ),
        },
    ensures
        out == by_sync,
{
}

/// A test that allows a message allows the call, and local time alone is always
/// allowed.
pub proof fn law_tested_message_may_be_applied(
    m: TimeMessage,
    c: ClockCal,
    dev_local: i64,
    b: bool,
)
    requires
        call_ensures(TimeMessage::can_apply, (&m, &c, dev_local), b),
    ensures
        b ==> call_requires(TimeMessage::apply, (&m, &c, dev_local)),
        m is Local ==> b,
        m matches TimeMessage::Zoned { utc_epoch, offset_min } && dev_local <= 0x4000_0000_0000_0000
            && utc_epoch <= 0x4000_0000_0000_0000 ==> b,
{
    if let TimeMessage::Zoned { utc_epoch, offset_min } = m {
        if utc_epoch <= 0x4000_0000_0000_0000 {
            lemma_signed64(utc_epoch, utc_epoch as int);
        }
    }
}

} // verus!
