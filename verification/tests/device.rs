use mindbell::button::{is_long_press, poll_long_press, poll_release};
use mindbell::drift::DriftState;
use mindbell::motor::{
    buzz_step, MotorStep, CONFIRM_GAP_MS, CONFIRM_PULSES, CONFIRM_PULSE_MS, REMINDER_GAP_MS,
    REMINDER_PULSES, REMINDER_PULSE_MS,
};
use mindbell::schedule::{Schedule, Segment};
use mindbell::sleep::{plan_sleep, FALLBACK_SECS};
use mindbell::wake::{
    load_schedule, next_signal, on_wake, wakeup_cause, Wake, WakeAction, REBUZZ_GUARD_S,
};
use mindbell::window::window_tick;

/// Ticks until the window closes.
fn ticks_open(connected: impl Fn(u32) -> bool) -> u32 {
    let mut waited = 0;
    let mut ticks = 0;
    loop {
        ticks += 1;
        match window_tick(waited, connected(ticks)) {
            Some(w) => waited = w,
            None => return ticks,
        }
    }
}

#[test]
fn window_without_phone_closes_after_idle_time() {
    assert_eq!(ticks_open(|_| false), 60);
}

#[test]
fn window_with_phone_lasts_until_it_leaves() {
    assert_eq!(ticks_open(|k| k < 100), 100);
    assert_eq!(ticks_open(|k| k < 20), 60);
    assert_eq!(ticks_open(|k| (60..80).contains(&k)), 80);
}

#[test]
fn window_never_outlasts_its_limit() {
    assert_eq!(ticks_open(|_| true), 600);
    assert_eq!(window_tick(u32::MAX, true), None);
    assert_eq!(window_tick(0, false), Some(500));
}

/// How long the button counts as held, by readings.
fn held(poll: impl Fn(u32, bool) -> Option<u32>, pressed: impl Fn(u32) -> bool) -> u32 {
    let mut held = 0;
    let mut reading = 0;
    while let Some(h) = poll(held, pressed(reading)) {
        held = h;
        reading += 1;
    }
    held
}

#[test]
fn long_press_needs_the_whole_time() {
    assert_eq!(held(poll_long_press, |_| true), 2_000);
    assert!(is_long_press(held(poll_long_press, |_| true)));
    assert!(is_long_press(held(poll_long_press, |k| k < 40)));
    assert_eq!(held(poll_long_press, |k| k < 39), 1_950);
    assert!(!is_long_press(held(poll_long_press, |k| k < 39)));
    assert!(!is_long_press(held(poll_long_press, |k| k != 10)));
    assert_eq!(held(poll_long_press, |_| false), 0);
}

#[test]
fn release_is_awaited_for_a_limited_time() {
    assert_eq!(held(poll_release, |_| true), 3_000);
    assert_eq!(held(poll_release, |k| k < 7), 350);
    assert_eq!(poll_release(u32::MAX, true), None);
}

/// All the steps of a train.
fn buzz(pulses: u32, on_ms: u32, gap_ms: u32) -> Vec<MotorStep> {
    (0u64..).map_while(|k| buzz_step(pulses, on_ms, gap_ms, k)).collect()
}

#[test]
fn reminder_is_two_pulses() {
    assert_eq!(
        buzz(REMINDER_PULSES, REMINDER_PULSE_MS, REMINDER_GAP_MS),
        vec![
            MotorStep::On,
            MotorStep::Wait(180),
            MotorStep::Off,
            MotorStep::Wait(120),
            MotorStep::On,
            MotorStep::Wait(180),
            MotorStep::Off,
        ]
    );
}

#[test]
fn confirmation_is_one_pulse_without_pause() {
    assert_eq!(
        buzz(CONFIRM_PULSES, CONFIRM_PULSE_MS, CONFIRM_GAP_MS),
        vec![MotorStep::On, MotorStep::Wait(300), MotorStep::Off]
    );
    assert_eq!(buzz(0, 1, 1), vec![]);
}

#[test]
fn pulse_train_takes_its_time() {
    let steps = buzz(5, 10, 3);
    let total: u32 = steps
        .iter()
        .map(|s| match s {
            MotorStep::Wait(ms) => *ms,
            _ => 0,
        })
        .sum();
    assert_eq!(total, 5 * 10 + 4 * 3);
    assert_eq!(steps.iter().filter(|s| **s == MotorStep::On).count(), 5);
    assert_eq!(steps.last(), Some(&MotorStep::Off));
    assert_eq!(buzz_step(u32::MAX, 1, 2, 17_179_869_178), Some(MotorStep::Off));
    assert_eq!(buzz_step(u32::MAX, 1, 2, 17_179_869_179), None);
}

#[test]
fn wake_codes_are_told_apart() {
    assert_eq!(wakeup_cause(4, 4, 7), Wake::Timer);
    assert_eq!(wakeup_cause(7, 4, 7), Wake::Button);
    assert_eq!(wakeup_cause(0, 4, 7), Wake::Cold);
    assert_eq!(wakeup_cause(2, 4, 7), Wake::Cold);
}

#[test]
fn timer_reminds_only_inside_a_range() {
    let s = Schedule::default_demo();
    assert_eq!(on_wake(Wake::Timer, Some(9 * 3600), &s), WakeAction::Remind);
    assert_eq!(on_wake(Wake::Timer, Some(9 * 3600 + 200), &s), WakeAction::Remind);
    assert_eq!(on_wake(Wake::Timer, Some(3 * 3600), &s), WakeAction::OutsideRanges);
    assert_eq!(on_wake(Wake::Timer, None, &s), WakeAction::TimeUnknown);
}

#[test]
fn button_and_cold_start() {
    let s = Schedule::default_demo();
    assert_eq!(on_wake(Wake::Button, Some(9 * 3600), &s), WakeAction::CheckButton);
    assert_eq!(on_wake(Wake::Button, None, &s), WakeAction::CheckButton);
    assert_eq!(on_wake(Wake::Cold, None, &s), WakeAction::Configure);
    assert_eq!(on_wake(Wake::Cold, Some(9 * 3600), &s), WakeAction::Proceed);
}

#[test]
fn unreadable_schedule_is_replaced_by_the_demonstration() {
    assert_eq!(load_schedule(None), Schedule::default_demo());
    let own = Schedule {
        segments: vec![Segment { start_min: 1, end_min: 2, interval_min: 3, enabled: false }],
    };
    assert_eq!(load_schedule(Some(own.clone())), own);
}

#[test]
fn signal_is_not_given_twice() {
    let s = Schedule::default_demo();
    let early = 9 * 3600 + 7 * 60 - 2;
    assert_eq!(next_signal(&s, Some(early), false), Some(2));
    assert_eq!(next_signal(&s, Some(early), true), Some(422));
    assert_eq!(next_signal(&s, None, true), None);
    assert_eq!(next_signal(&s, None, false), None);
    assert_eq!(REBUZZ_GUARD_S, 30);
}

#[test]
fn early_and_silent_wake_loses_nothing() {
    let s = Schedule::default_demo();
    // One second before the first range: silent, and woken again in time.
    let now = 9 * 3600 - 1;
    assert_eq!(on_wake(Wake::Timer, Some(now), &s), WakeAction::OutsideRanges);
    assert_eq!(next_signal(&s, Some(now), false), Some(1));
}

#[test]
fn sleep_is_between_a_second_and_a_day() {
    assert_eq!(plan_sleep(None, 0).seconds, FALLBACK_SECS);
    assert_eq!(plan_sleep(Some(0), 0).seconds, 1);
    assert_eq!(plan_sleep(Some(420), 0).seconds, 420);
    assert_eq!(plan_sleep(Some(420), 0).micros, 420_000_000);
    assert_eq!(plan_sleep(Some(FALLBACK_SECS + 1), 0).seconds, FALLBACK_SECS);
    assert_eq!(plan_sleep(Some(u32::MAX), 0).micros, 86_400_000_000);
}

#[test]
fn timer_makes_up_for_drift() {
    assert_eq!(plan_sleep(Some(420), 7_000).micros, 422_960_725);
    assert_eq!(plan_sleep(Some(420), -7_000).micros, 417_080_436);
    assert_eq!(plan_sleep(Some(950), 50_000).micros, 1_000_000_000);
}

#[test]
fn timer_at_absurd_rates() {
    for ppm in [999_999i32, 1_000_001, 2_000_000, i32::MAX, i32::MIN] {
        let expected = (420i128 * 1_000_000 * 1_000_000 / (1_000_000 - ppm as i128)) as u64;
        assert_eq!(plan_sleep(Some(420), ppm).micros, expected);
    }
}

#[test]
fn sleep_lands_on_the_signal() {
    for ppm in [0i32, 7_000, -7_000, 50_000, -50_000, 123] {
        for secs in [1u32, 2, 60, 420, 1200, 36_000, 86_400] {
            let asleep_at: i64 = 1_700_000_000;
            let before = DriftState { checkpoint: asleep_at, remainder: 999_999 };
            let raw = (plan_sleep(Some(secs), ppm).micros / 1_000_000) as i64;
            let after = before.apply_drift_correction(asleep_at + raw, ppm).state;
            let off = after.checkpoint - (asleep_at + secs as i64);
            assert!(-2 <= off && off <= 0);
        }
    }
}
