//! What the sleep, the configuration window, the button and the motor promise, in
//! the numbers that go in and come out.

use vstd::prelude::*;

use crate::button::{held_after, is_long_press, poll_long_press, poll_release};
use crate::motor::{MotorStep, buzz_step};
use crate::sleep::{SleepPlan, plan_sleep};
use crate::window::{law_window_open_iff, window_after, window_tick};

verus! {

/// A sleep takes the seconds until the next signal, but at least one and at most a
/// day; with no signal due, a day.
pub proof fn law_sleep_seconds(next_secs: Option<u32>, cal_ppm: i32, p: SleepPlan)
    requires
        call_ensures(plan_sleep, (next_secs, cal_ppm), p),
    ensures
        1 <= p.seconds <= 86_400,
        next_secs is None ==> p.seconds == 86_400,
        next_secs is Some && 1 <= next_secs->0 <= 86_400 ==> p.seconds == next_secs->0,
        next_secs is Some && next_secs->0 == 0 ==> p.seconds == 1,
        next_secs is Some && next_secs->0 > 86_400 ==> p.seconds == 86_400,
{
}

/// The timer runs for the time in which a clock of that rate, less its gain,
/// advances by the planned seconds, rounded down to the microsecond. Beyond a
/// rate of a million the number is negative and stands as its 64-bit pattern.
pub proof fn law_sleep_micros(next_secs: Option<u32>, cal_ppm: i32, p: SleepPlan)
    requires
        call_ensures(plan_sleep, (next_secs, cal_ppm), p),
        cal_ppm != 1_000_000,
    ensures
        cal_ppm < 1_000_000 ==> {
            &&& p.micros * (1_000_000 - cal_ppm) <= p.seconds * 1_000_000_000_000
            &&& p.seconds * 1_000_000_000_000 < (p.micros + 1) * (1_000_000 - cal_ppm)
        },
        cal_ppm > 1_000_000 ==> ({
            let below = 0x1_0000_0000_0000_0000 - p.micros;
            &&& below * (cal_ppm - 1_000_000) <= p.seconds * 1_000_000_000_000
            &&& p.seconds * 1_000_000_000_000 < (below + 1) * (cal_ppm - 1_000_000)
        }),
        call_requires(plan_sleep, (next_secs, cal_ppm)),
{
    let total = p.seconds * 1_000_000_000_000;
    let d = if cal_ppm < 1_000_000 {
        1_000_000 - cal_ppm
    } else {
        cal_ppm - 1_000_000
    };
    let m = total / d;
    vstd::arithmetic::div_mod::lemma_fundamental_div_mod(total, d);
    vstd::arithmetic::div_mod::lemma_mod_bound(total, d);
    assert(m * d == d * m) by (nonlinear_arith);
    assert((m + 1) * d == d * m + d) by (nonlinear_arith);
}

/// A tick adds half a second; the window closes at 300 seconds, and from 30 seconds
/// on where no phone is connected.
pub proof fn law_window_tick(waited_ms: u32, connected: bool, r: Option<u32>)
    requires
        call_ensures(window_tick, (waited_ms, connected), r),
    ensures
        r is Some <==> waited_ms + 500 < 300_000 && (connected || waited_ms + 500 < 30_000),
        r is Some ==> r->0 == waited_ms + 500,
{
}

/// Ticking once more after ticks that found the connection as in `connected`.
pub proof fn law_window_ticks_in_turn(
    connected: Seq<bool>,
    waited_ms: u32,
    now_connected: bool,
    r: Option<u32>,
)
    requires
        window_after(connected) == Some(waited_ms as int),
        call_ensures(window_tick, (waited_ms, now_connected), r),
    ensures
        window_after(connected.push(now_connected)) == match r {
            Some(w) => Some(w as int),
            None => None,
        },
{
    assert(connected.push(now_connected).drop_last() =~= connected);
}

/// Over any series of ticks the window stays open exactly as long as fewer than
/// 600 ticks have passed and every tick from the sixtieth on found the phone.
pub proof fn law_window_stays_open(connected: Seq<bool>)
    ensures
        window_after(connected) is Some <==> connected.len() < 600 && forall|k: int|
            59 <= k < connected.len() ==> #[trigger] connected[k],
        window_after(connected) is Some ==> window_after(connected)->0 == 500 * connected.len(),
{
    law_window_open_iff(connected);
    if connected.len() >= 600 {
        let last = connected[connected.len() - 1];
    }
}

/// While the button is pressed and was held for less than two seconds, fifty more
/// milliseconds are waited; else polling stops.
pub proof fn law_poll_long_press(held_ms: u32, pressed: bool, next: Option<u32>)
    requires
        call_ensures(poll_long_press, (held_ms, pressed), next),
    ensures
        next is Some <==> pressed && held_ms < 2_000,
        next is Some ==> next->0 == held_ms + 50,
{
}

/// While the button is pressed and was awaited for less than three seconds, fifty
/// more milliseconds are waited; else polling stops.
pub proof fn law_poll_release(held_ms: u32, pressed: bool, next: Option<u32>)
    requires
        call_ensures(poll_release, (held_ms, pressed), next),
    ensures
        next is Some <==> pressed && held_ms < 3_000,
        next is Some ==> next->0 == held_ms + 50,
{
}

/// Two seconds make a long press.
pub proof fn law_is_long_press(held_ms: u32, b: bool)
    requires
        call_ensures(is_long_press, (held_ms,), b),
    ensures
        b <==> held_ms >= 2_000,
{
}

/// Polling for a long press in turn, from the first reading on.
pub proof fn law_long_press_polls_in_turn(held_ms: u32, pressed: Seq<bool>, next: Option<u32>)
    requires
        pressed.len() > 0,
        call_ensures(poll_long_press, (held_ms, pressed[0]), next),
    ensures
        held_after(held_ms as int, pressed, 2_000) == match next {
            Some(h) => held_after(h as int, pressed.drop_first(), 2_000),
            None => held_ms as int,
        },
{
}

/// Polling for release in turn, from the first reading on.
pub proof fn law_release_polls_in_turn(held_ms: u32, pressed: Seq<bool>, next: Option<u32>)
    requires
        pressed.len() > 0,
        call_ensures(poll_release, (held_ms, pressed[0]), next),
    ensures
        held_after(held_ms as int, pressed, 3_000) == match next {
            Some(h) => held_after(h as int, pressed.drop_first(), 3_000),
            None => held_ms as int,
        },
{
}

/// The button counts as held for fifty milliseconds for each of the first readings
/// that find it pressed: `m` of them, where the next one finds it released, or the
/// readings end, or the limit of `n` periods is reached.
pub proof fn law_held_time(pressed: Seq<bool>, n: nat, m: nat, held: int)
    requires
        m <= n,
        m <= pressed.len(),
        forall|k: int| 0 <= k < m ==> #[trigger] pressed[k],
        m == n || m == pressed.len() || !pressed[m as int],
    ensures
        held_after(held, pressed, held + 50 * n) == held + 50 * m,
    decreases m,
{
    if m > 0 {
        let rest = pressed.drop_first();
        assert(pressed[0]);
        assert forall|k: int| 0 <= k < m - 1 implies #[trigger] rest[k] by {
            assert(pressed[k + 1]);
        }
        law_held_time(rest, (n - 1) as nat, (m - 1) as nat, held + 50);
        assert(held + 50 + 50 * (n - 1) == held + 50 * n);
    }
}

/// A train of pulses repeats four steps, on, the pulse, off, the pause, and ends
/// with the last off.
pub proof fn law_buzz_step(pulses: u32, on_ms: u32, gap_ms: u32, k: u64, step: Option<MotorStep>)
    requires
        call_ensures(buzz_step, (pulses, on_ms, gap_ms, k), step),
    ensures
        step is Some <==> k + 1 < 4 * pulses,
        step is Some && k % 4 == 0 ==> step->0 == MotorStep::On,
        step is Some && k % 4 == 1 ==> step->0 == MotorStep::Wait(on_ms),
        step is Some && k % 4 == 2 ==> step->0 == MotorStep::Off,
        step is Some && k % 4 == 3 ==> step->0 == MotorStep::Wait(gap_ms),
{
    crate::motor::law_train_steps(pulses as nat, on_ms, gap_ms);
}

} // verus!
