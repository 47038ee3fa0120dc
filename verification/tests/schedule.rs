use mindbell::schedule::{Schedule, Segment, SECONDS_PER_DAY};

fn day(start_h: u16, end_h: u16, interval: u16) -> Segment {
    Segment { start_min: start_h * 60, end_min: end_h * 60, interval_min: interval, enabled: true }
}

#[test]
fn first_slot_at_segment_start() {
    let s = Schedule { segments: vec![day(9, 20, 7)] };
    // 08:00: exactly one hour to 09:00.
    assert_eq!(s.seconds_until_next(8 * 3600), Some(3600));
}

#[test]
fn aligned_to_interval() {
    let s = Schedule { segments: vec![day(9, 20, 7)] };
    // 09:00: the next signal is at 09:07.
    assert_eq!(s.seconds_until_next(9 * 3600), Some(7 * 60));
    // 09:03: four minutes to 09:07.
    assert_eq!(s.seconds_until_next(9 * 3600 + 3 * 60), Some(4 * 60));
}

#[test]
fn jumps_to_next_segment_after_gap() {
    let s = Schedule { segments: vec![day(9, 20, 7), day(20, 23, 20)] };
    // 19:58: the day range has no signal left, the evening begins at 20:00.
    let now = 19 * 3600 + 58 * 60;
    assert_eq!(s.seconds_until_next(now), Some(2 * 60));
}

#[test]
fn wraps_to_next_morning_at_night() {
    let s = Schedule { segments: vec![day(9, 20, 7)] };
    // 23:00: the next signal is tomorrow at 09:00.
    let now = 23 * 3600;
    let expected = (SECONDS_PER_DAY - now) + 9 * 3600;
    assert_eq!(s.seconds_until_next(now), Some(expected));
}

#[test]
fn disabled_segment_ignored() {
    let mut seg = day(9, 20, 7);
    seg.enabled = false;
    let s = Schedule { segments: vec![seg] };
    assert_eq!(s.seconds_until_next(8 * 3600), None);
}

#[test]
fn guarded_skips_current_slot_on_early_wake() {
    let s = Schedule { segments: vec![day(9, 20, 7)] };
    // Woken two seconds before 09:07: unguarded, the same signal comes again.
    let now = 9 * 3600 + 7 * 60 - 2;
    assert_eq!(s.seconds_until_next(now), Some(2));
    assert_eq!(s.seconds_until_next_guarded(now, 30), Some(7 * 60 + 2));
}

#[test]
fn guarded_keeps_normal_next_slot() {
    let s = Schedule { segments: vec![day(9, 20, 7)] };
    // Woken exactly at 09:07: the guard changes nothing.
    let now = 9 * 3600 + 7 * 60;
    assert_eq!(s.seconds_until_next_guarded(now, 30), s.seconds_until_next(now));
}

#[test]
fn guarded_wraps_past_midnight() {
    let s = Schedule { segments: vec![day(9, 24, 7)] };
    let now = SECONDS_PER_DAY - 2; // 23:59:58, no signal left today
    let expected = 2 + 9 * 3600; // tomorrow at 09:00
    assert_eq!(s.seconds_until_next_guarded(now, 30), Some(expected));
}

#[test]
fn in_active_segment_window() {
    let s = Schedule { segments: vec![day(9, 20, 7)] };
    assert!(s.in_active_segment(9 * 3600)); // the very start is inside
    assert!(s.in_active_segment(12 * 3600)); // the middle
    assert!(!s.in_active_segment(8 * 3600)); // before the start
    assert!(!s.in_active_segment(20 * 3600)); // the end is outside
    assert!(!s.in_active_segment(23 * 3600)); // night
}

#[test]
fn in_active_segment_ignores_disabled() {
    let mut seg = day(9, 20, 7);
    seg.enabled = false;
    let s = Schedule { segments: vec![seg] };
    assert!(!s.in_active_segment(12 * 3600));
}

#[test]
fn demo_is_day_evening_and_silent_night() {
    let s = Schedule::default_demo();
    assert_eq!(
        s.segments,
        vec![
            Segment { start_min: 540, end_min: 1200, interval_min: 7, enabled: true },
            Segment { start_min: 1200, end_min: 1380, interval_min: 20, enabled: true },
        ]
    );
    assert_eq!(s.seconds_until_next(10 * 3600), Some(180)); // 10:00, next 10:03
    assert_eq!(s.seconds_until_next(21 * 3600), Some(20 * 60));
    assert!(!s.in_active_segment(23 * 3600));
    assert!(!s.in_active_segment(3 * 3600));
    assert_eq!(s.seconds_until_next(23 * 3600), Some(10 * 3600));
}

#[test]
fn empty_schedule_is_silent() {
    let s = Schedule::default();
    assert!(s.segments.is_empty());
    assert_eq!(s.seconds_until_next(0), None);
    assert_eq!(s.seconds_until_next_guarded(0, 30), None);
    assert!(!s.in_active_segment(0));
}

#[test]
fn empty_range_and_zero_period_count_for_nothing() {
    let live = day(9, 20, 7);
    let empty = Segment { start_min: 600, end_min: 600, interval_min: 5, enabled: true };
    let backwards = Segment { start_min: 700, end_min: 600, interval_min: 5, enabled: true };
    let no_period = Segment { start_min: 0, end_min: 1440, interval_min: 0, enabled: true };
    let a = Schedule { segments: vec![live.clone()] };
    let b = Schedule {
        segments: vec![no_period, backwards, live.clone(), empty, live],
    };
    for now in [0u32, 32_400, 35_999, 36_000, 71_999, 86_399] {
        assert_eq!(a.seconds_until_next(now), b.seconds_until_next(now));
        assert_eq!(a.in_active_segment(now), b.in_active_segment(now));
    }
}

#[test]
fn overlapping_ranges_both_signal() {
    // 10:00, 10:30, 11:00 .. and 10:10, 10:35, 11:00 ..
    let s = Schedule {
        segments: vec![
            day(10, 12, 30),
            Segment { start_min: 610, end_min: 720, interval_min: 25, enabled: true },
        ],
    };
    assert_eq!(s.seconds_until_next(36_000), Some(600));
    assert_eq!(s.seconds_until_next(36_600), Some(1200));
    assert_eq!(s.seconds_until_next(37_800), Some(300));
    assert_eq!(s.seconds_until_next(38_100), Some(1500));
}

#[test]
fn last_signal_lies_before_the_end() {
    // 09:00 and 09:30; 10:00 is the end.
    let s = Schedule { segments: vec![day(9, 10, 30)] };
    assert_eq!(s.seconds_until_next(9 * 3600 + 29 * 60), Some(60));
    assert_eq!(s.seconds_until_next(9 * 3600 + 30 * 60), Some(SECONDS_PER_DAY - 1800));
}

#[test]
fn wait_is_at_most_a_day() {
    let s = Schedule { segments: vec![day(9, 10, 60)] };
    assert_eq!(s.seconds_until_next(9 * 3600), Some(SECONDS_PER_DAY));
    assert_eq!(s.seconds_until_next(9 * 3600 - 1), Some(1));
    let midnight = Schedule {
        segments: vec![Segment { start_min: 1440, end_min: 1441, interval_min: 1, enabled: true }],
    };
    assert_eq!(midnight.seconds_until_next(0), Some(SECONDS_PER_DAY));
}

#[test]
fn guard_over_midnight_finds_the_day_after() {
    // One signal a day, at midnight. The guard reaches over tomorrow's.
    let hour = Schedule {
        segments: vec![Segment { start_min: 0, end_min: 10, interval_min: 60, enabled: true }],
    };
    assert_eq!(hour.seconds_until_next(SECONDS_PER_DAY - 1), Some(1));
    assert_eq!(
        hour.seconds_until_next_guarded(SECONDS_PER_DAY - 1, 30),
        Some(SECONDS_PER_DAY + 1)
    );
    assert_eq!(hour.seconds_until_next(SECONDS_PER_DAY), Some(SECONDS_PER_DAY));
    let minute = Schedule {
        segments: vec![Segment { start_min: 0, end_min: 1, interval_min: 1, enabled: true }],
    };
    assert_eq!(minute.seconds_until_next_guarded(86_390, 30), Some(86_410));
}

#[test]
fn any_moment_is_accepted() {
    let s = Schedule {
        segments: vec![Segment {
            start_min: 0,
            end_min: u16::MAX,
            interval_min: u16::MAX,
            enabled: true,
        }],
    };
    assert_eq!(s.seconds_until_next(u32::MAX), None);
    assert!(!s.in_active_segment(u32::MAX));
    assert_eq!(s.seconds_until_next_guarded(u32::MAX - 30, 30), None);
}

#[test]
fn guard_keeps_the_following_signal() {
    let s = Schedule { segments: vec![day(9, 20, 1)] };
    // Early for 09:01, the next is 09:02.
    assert_eq!(s.seconds_until_next_guarded(9 * 3600 + 59, 30), Some(61));
    assert_eq!(s.seconds_until_next_guarded(9 * 3600 + 31, 30), Some(89));
    // Half a minute late for 09:01, the guard reaches over 09:02.
    assert_eq!(s.seconds_until_next_guarded(9 * 3600 + 90, 30), Some(90));
}

#[test]
fn guard_of_zero_changes_nothing() {
    let s = Schedule::default_demo();
    for now in [0u32, 32_399, 32_400, 50_000, 72_000, 86_399] {
        assert_eq!(s.seconds_until_next_guarded(now, 0), s.seconds_until_next(now));
    }
}

#[test]
fn answers_agree_with_a_plain_search() {
    let s = Schedule {
        segments: vec![day(9, 10, 7), day(20, 21, 20), day(9, 11, 25)],
    };
    let is_slot = |t: u32| {
        s.segments.iter().any(|g| {
            (0..2u32).any(|d| {
                let mut x = d * SECONDS_PER_DAY + g.start_min as u32 * 60;
                let end = d * SECONDS_PER_DAY + g.end_min as u32 * 60;
                while x < end {
                    if x == t {
                        return true;
                    }
                    x += g.interval_min as u32 * 60;
                }
                false
            })
        })
    };
    for now in (0..SECONDS_PER_DAY).step_by(977) {
        let expected = (1..2 * SECONDS_PER_DAY).find(|d| is_slot(now + d));
        assert_eq!(s.seconds_until_next(now), expected);
    }
}

#[test]
fn signals_fall_inside_active_ranges() {
    let s = Schedule::default_demo();
    let mut now: u32 = 0;
    for _ in 0..200 {
        let wait = s.seconds_until_next(now).unwrap();
        now = (now + wait) % SECONDS_PER_DAY;
        assert!(s.in_active_segment(now));
        assert_eq!(now % 60, 0);
    }
}
