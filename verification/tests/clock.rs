use mindbell::bytes::to_signed;
use mindbell::calibration::{load_clkcal, store_clkcal, ClockCal, MAX_CAL_PPM, MAX_CAL_STEP_PPM};
use mindbell::drift::{now_local_sec, DriftState, TIME_SET_THRESHOLD};
use mindbell::message::{accept_time_write, parse_time, TimeMessage};

const SYNC: i64 = 1_700_000_000;

#[test]
fn clock_below_threshold_is_not_set() {
    assert_eq!(now_local_sec(0), None);
    assert_eq!(now_local_sec(-5), None);
    assert_eq!(now_local_sec(TIME_SET_THRESHOLD - 1), None);
    assert_eq!(now_local_sec(TIME_SET_THRESHOLD), Some((1_600_000_000u64 % 86_400) as u32));
    assert_eq!(now_local_sec(1_700_000_000), Some(80_000));
    assert_eq!(now_local_sec(1_700_006_400), Some(0));
}

#[test]
fn unset_clock_is_not_corrected() {
    let d = DriftState { checkpoint: SYNC, remainder: 5 };
    let c = d.apply_drift_correction(1000, 50_000);
    assert_eq!(c.state, d);
    assert_eq!(c.clock, None);
}

#[test]
fn first_reading_becomes_the_checkpoint() {
    let d = DriftState { checkpoint: 0, remainder: 77 };
    let c = d.apply_drift_correction(SYNC, 50_000);
    assert_eq!(c.state, DriftState { checkpoint: SYNC, remainder: 0 });
    assert_eq!(c.clock, None);
}

#[test]
fn clock_that_stood_still_is_left_alone() {
    let d = DriftState { checkpoint: SYNC, remainder: 77 };
    for now in [SYNC, SYNC - 10] {
        let c = d.apply_drift_correction(now, 7_000);
        assert_eq!(c.state, d);
        assert_eq!(c.clock, None);
    }
}

#[test]
fn fast_clock_is_set_back() {
    let d = DriftState { checkpoint: SYNC, remainder: 0 };
    let c = d.apply_drift_correction(SYNC + 1000, 7_000);
    assert_eq!(c.clock, Some(SYNC + 993));
    assert_eq!(c.state, DriftState { checkpoint: SYNC + 993, remainder: 0 });
}

#[test]
fn slow_clock_is_set_forward() {
    let d = DriftState { checkpoint: SYNC, remainder: 0 };
    // -0.7 s: rounded down to one second, the rest is carried over.
    let c = d.apply_drift_correction(SYNC + 100, -7_000);
    assert_eq!(c.clock, Some(SYNC + 101));
    assert_eq!(c.state, DriftState { checkpoint: SYNC + 101, remainder: 300_000 });
}

#[test]
fn less_than_a_second_is_carried_over() {
    let d = DriftState { checkpoint: SYNC, remainder: 0 };
    let c = d.apply_drift_correction(SYNC + 100, 7_000);
    assert_eq!(c.clock, None);
    assert_eq!(c.state, DriftState { checkpoint: SYNC + 100, remainder: 700_000 });
    let e = c.state.apply_drift_correction(SYNC + 200, 7_000);
    assert_eq!(e.clock, Some(SYNC + 199));
    assert_eq!(e.state, DriftState { checkpoint: SYNC + 199, remainder: 400_000 });
}

#[test]
fn no_drift_is_lost_over_many_wakes() {
    for ppm in [7_123i32, -7_123, 1, -1, 50_000] {
        let first = DriftState { checkpoint: SYNC, remainder: 0 };
        let mut d = first;
        let mut ran: i64 = 0;
        for k in 1..200i64 {
            let slept = 60 + k % 7;
            ran += slept;
            let c = d.apply_drift_correction(d.checkpoint + slept, ppm);
            assert!(0 <= c.state.remainder && c.state.remainder < 1_000_000);
            d = c.state;
        }
        let once = first.apply_drift_correction(SYNC + ran, ppm).state;
        assert_eq!(once, d);
    }
}

#[test]
fn correction_range_is_tested() {
    let far = DriftState { checkpoint: -i64::MAX, remainder: 0 };
    assert!(!far.can_correct(SYNC, 1));
    assert!(far.can_correct(0, 1));
    let long = DriftState { checkpoint: 1, remainder: 0 };
    assert!(!long.can_correct(i64::MAX, 2));
    assert!(long.can_correct(i64::MAX, 1));
    assert!(!long.can_correct(i64::MAX, -1));
    let full = DriftState { checkpoint: SYNC, remainder: i64::MAX };
    assert!(!full.can_correct(SYNC + 1, 1));
    assert!(full.can_correct(SYNC + 1, 0));
}

#[test]
fn calibration_round_trip() {
    for c in [
        ClockCal { cal_ppm: 0, last_sync_utc: 0, offset_min: 0 },
        ClockCal { cal_ppm: -7_123, last_sync_utc: SYNC, offset_min: -330 },
        ClockCal { cal_ppm: i32::MIN, last_sync_utc: i64::MAX, offset_min: i16::MIN },
        ClockCal { cal_ppm: i32::MAX, last_sync_utc: i64::MIN, offset_min: i16::MAX },
    ] {
        let b = store_clkcal(&c);
        assert_eq!(b.len(), 14);
        assert_eq!(load_clkcal(Some(&b)), c);
    }
}

#[test]
fn calibration_layout() {
    let c = ClockCal { cal_ppm: -2, last_sync_utc: 0x0102_0304_0506_0708, offset_min: 0x1234 };
    let b = store_clkcal(&c);
    assert_eq!(
        b,
        vec![0xfe, 0xff, 0xff, 0xff, 8, 7, 6, 5, 4, 3, 2, 1, 0x34, 0x12]
    );
    let mut expected = Vec::new();
    expected.extend_from_slice(&c.cal_ppm.to_le_bytes());
    expected.extend_from_slice(&c.last_sync_utc.to_le_bytes());
    expected.extend_from_slice(&c.offset_min.to_le_bytes());
    assert_eq!(b, expected);
}

#[test]
fn missing_or_short_calibration_is_zero() {
    let zero = ClockCal { cal_ppm: 0, last_sync_utc: 0, offset_min: 0 };
    assert_eq!(load_clkcal(None), zero);
    assert_eq!(load_clkcal(Some(&[1u8; 13])), zero);
    assert_eq!(load_clkcal(Some(&[])), zero);
    assert_eq!(load_clkcal(Some(&[1u8; 14])).offset_min, 0x0101);
}

#[test]
fn wide_numbers_become_signed() {
    assert_eq!(to_signed(0), 0);
    assert_eq!(to_signed(i64::MAX as u64), i64::MAX);
    assert_eq!(to_signed(1 << 63), i64::MIN);
    assert_eq!(to_signed(u64::MAX), -1);
}

#[test]
fn sync_learns_the_rate() {
    let c = ClockCal { cal_ppm: 0, last_sync_utc: SYNC, offset_min: 180 };
    // 700 s fast over 100000 s, the zone changes from +3 h to +1 h.
    let out = c.on_time_sync(SYNC + 100_700 + 180 * 60, (SYNC + 100_000) as u64, 60);
    assert_eq!(
        out.cal,
        ClockCal { cal_ppm: 7_000, last_sync_utc: SYNC + 100_000, offset_min: 60 }
    );
    assert_eq!(out.clock, (SYNC + 103_600) as u64);
    assert_eq!(out.drift, DriftState { checkpoint: SYNC + 103_600, remainder: 0 });
}

#[test]
fn zone_does_not_disturb_the_rate() {
    for zone in [-720i16, 0, 330, 840] {
        for next in [-600i16, 0, 345] {
            let c = ClockCal { cal_ppm: 500, last_sync_utc: SYNC, offset_min: zone };
            let out =
                c.on_time_sync(SYNC + 99_300 + zone as i64 * 60, (SYNC + 100_000) as u64, next);
            assert_eq!(out.cal.cal_ppm, -6_500);
        }
    }
}

#[test]
fn remaining_rate_is_rounded_towards_zero() {
    let c = ClockCal { cal_ppm: 10, last_sync_utc: SYNC, offset_min: 0 };
    // 1 s over 30000 s is 33.3 millionths.
    assert_eq!(c.on_time_sync(SYNC + 30_001, (SYNC + 30_000) as u64, 0).cal.cal_ppm, 43);
    assert_eq!(c.on_time_sync(SYNC + 29_999, (SYNC + 30_000) as u64, 0).cal.cal_ppm, -23);
    assert_eq!(c.on_time_sync(SYNC + 30_000, (SYNC + 30_000) as u64, 0).cal.cal_ppm, 10);
}

#[test]
fn short_interval_teaches_nothing() {
    let c = ClockCal { cal_ppm: 123, last_sync_utc: SYNC, offset_min: 0 };
    let out = c.on_time_sync(SYNC + 20_000, (SYNC + 14_399) as u64, 0);
    assert_eq!(out.cal.cal_ppm, 123);
    assert_eq!(out.cal.last_sync_utc, SYNC + 14_399);
    let long = c.on_time_sync(SYNC + 14_544, (SYNC + 14_400) as u64, 0);
    assert_eq!(long.cal.cal_ppm, 123 + 10_000);
}

#[test]
fn lost_clock_teaches_nothing() {
    let c = ClockCal { cal_ppm: 123, last_sync_utc: SYNC, offset_min: 0 };
    assert_eq!(c.on_time_sync(500, (SYNC + 100_000) as u64, 0).cal.cal_ppm, 123);
    let fresh = ClockCal { cal_ppm: 123, last_sync_utc: 0, offset_min: 0 };
    assert_eq!(fresh.on_time_sync(SYNC, (SYNC + 100_000) as u64, 0).cal.cal_ppm, 123);
}

#[test]
fn step_and_rate_are_bounded() {
    let mut c = ClockCal { cal_ppm: 0, last_sync_utc: SYNC, offset_min: 0 };
    let mut utc = SYNC;
    for expected in [20_000i64, 40_000, 50_000, 50_000] {
        utc += 100_000;
        c = c.on_time_sync(utc + 90_000, utc as u64, 0).cal;
        assert_eq!(c.cal_ppm as i64, expected);
        assert!(c.cal_ppm as i64 <= MAX_CAL_PPM);
    }
    utc += 100_000;
    let down = c.on_time_sync(utc - 90_000, utc as u64, 0).cal;
    assert_eq!(down.cal_ppm as i64, MAX_CAL_PPM - MAX_CAL_STEP_PPM);
}

#[test]
fn remaining_rate_wraps_at_64_bits() {
    let c = ClockCal { cal_ppm: 0, last_sync_utc: SYNC, offset_min: 0 };
    let utc = SYNC + 14_400;
    for dev in [1_000_000_000_000_000_000i64, i64::MAX, 140_000_000_000_000_000] {
        let wide = (dev as i128 - utc as i128) * 1_000_000 / 14_400;
        let expected = (wide as i64).clamp(-20_000, 20_000) as i32;
        assert_eq!(c.on_time_sync(dev, utc as u64, 0).cal.cal_ppm, expected);
    }
}

#[test]
fn time_before_the_epoch_sets_the_clock_to_zero() {
    let c = ClockCal { cal_ppm: 5, last_sync_utc: 0, offset_min: 0 };
    let out = c.on_time_sync(0, 60, -2);
    assert_eq!(out.clock, 0);
    assert_eq!(out.drift.checkpoint, -60);
}

#[test]
fn sync_range_is_tested() {
    let c = ClockCal { cal_ppm: 0, last_sync_utc: SYNC, offset_min: -1 };
    assert!(c.can_sync(SYNC, SYNC as u64, 60));
    assert!(!c.can_sync(i64::MAX, SYNC as u64, 60));
    assert!(!c.can_sync(SYNC, 1 << 63, 0));
    assert!(!c.can_sync(0, i64::MAX as u64, 1));
    assert!(c.can_sync(0, i64::MAX as u64, 0));
}

#[test]
fn local_time_keeps_the_rate_and_pauses_learning() {
    let c = ClockCal { cal_ppm: 6_000, last_sync_utc: SYNC, offset_min: 180 };
    let out = c.on_time_sync_legacy((SYNC + 5) as u64);
    assert_eq!(out.clock, (SYNC + 5) as u64);
    assert_eq!(out.drift, DriftState { checkpoint: SYNC + 5, remainder: 0 });
    assert_eq!(out.cal, ClockCal { cal_ppm: 6_000, last_sync_utc: 0, offset_min: 0 });
    let next = out.cal.on_time_sync(SYNC + 200_000, (SYNC + 100_000) as u64, 0);
    assert_eq!(next.cal.cal_ppm, 6_000);
}

#[test]
fn time_messages_are_told_apart_by_length() {
    let mut b = (SYNC as u64).to_le_bytes().to_vec();
    assert_eq!(parse_time(&b), TimeMessage::Local { local_epoch: SYNC as u64 });
    b.push(0xc4);
    assert_eq!(parse_time(&b), TimeMessage::Local { local_epoch: SYNC as u64 });
    b.push(0xff);
    let zoned = TimeMessage::Zoned { utc_epoch: SYNC as u64, offset_min: -60 };
    assert_eq!(parse_time(&b), zoned);
    b.push(1);
    assert_eq!(parse_time(&b), zoned);
    assert_eq!(
        parse_time(&[0xff; 10]),
        TimeMessage::Zoned { utc_epoch: u64::MAX, offset_min: -1 }
    );
}

#[test]
fn short_time_write_is_dropped() {
    let long = vec![1u8; 8];
    assert_eq!(accept_time_write(None, vec![1u8; 7]), None);
    assert_eq!(accept_time_write(None, long.clone()), Some(long.clone()));
    assert_eq!(accept_time_write(Some(long.clone()), vec![]), Some(long.clone()));
    assert_eq!(accept_time_write(Some(long), vec![2u8; 10]), Some(vec![2u8; 10]));
}

#[test]
fn messages_are_applied() {
    let c = ClockCal { cal_ppm: 0, last_sync_utc: SYNC, offset_min: 0 };
    let zoned = TimeMessage::Zoned { utc_epoch: (SYNC + 100_000) as u64, offset_min: 60 };
    assert!(zoned.can_apply(&c, SYNC + 100_100));
    assert_eq!(
        zoned.apply(&c, SYNC + 100_100),
        c.on_time_sync(SYNC + 100_100, (SYNC + 100_000) as u64, 60)
    );
    let local = TimeMessage::Local { local_epoch: 42 };
    assert!(local.can_apply(&c, i64::MIN));
    assert_eq!(local.apply(&c, i64::MIN), c.on_time_sync_legacy(42));
    let bad = TimeMessage::Zoned { utc_epoch: i64::MAX as u64, offset_min: 60 };
    assert!(!bad.can_apply(&c, 0));
}

#[test]
fn nothing_to_correct_right_after_a_message() {
    let c = ClockCal { cal_ppm: 7_000, last_sync_utc: SYNC, offset_min: 0 };
    let out = c.on_time_sync(SYNC + 3_600, (SYNC + 3_600) as u64, 60);
    let fix = out.drift.apply_drift_correction(out.clock as i64, 7_000);
    assert_eq!(fix.state, out.drift);
    assert_eq!(fix.clock, None);
    assert_eq!(now_local_sec(out.clock as i64), Some(((SYNC + 7_200) % 86_400) as u32));
}
