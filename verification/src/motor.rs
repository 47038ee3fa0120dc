//! Vibration patterns.

use vstd::prelude::*;

verus! {

/// The reminder: two short pulses.
pub const REMINDER_PULSES: u32 = 2;

pub const REMINDER_PULSE_MS: u32 = 180;

pub const REMINDER_GAP_MS: u32 = 120;

/// The confirmation that configuration begins: one long pulse, so that it is not
/// taken for a reminder.
pub const CONFIRM_PULSES: u32 = 1;

pub const CONFIRM_PULSE_MS: u32 = 300;

pub const CONFIRM_GAP_MS: u32 = 700;

/// One step of a pattern.
#[derive(Debug, Clone, Copy, PartialEq, Eq, Structural)]
pub enum MotorStep {
    /// Switch the motor on.
    On,
    /// Switch the motor off.
    Off,
    /// Wait for so many milliseconds.
    Wait(u32),
}

/// A train of `pulses` pulses of `on_ms` milliseconds, with a pause of `gap_ms`
/// milliseconds between each and the next, and none behind the last.
pub open spec fn pulse_train(pulses: nat, on_ms: u32, gap_ms: u32) -> Seq<MotorStep>
    decreases pulses,
{
    let pulse = seq![MotorStep::On, MotorStep::Wait(on_ms), MotorStep::Off];
    if pulses == 0 {
        Seq::empty()
    } else if pulses == 1 {
        pulse
    } else {
        pulse_train((pulses - 1) as nat, on_ms, gap_ms) + seq![MotorStep::Wait(gap_ms)] + pulse
    }
}

/// Step `k` of a train of pulses, counted from 0; `None` once the train is over.
pub fn buzz_step(pulses: u32, on_ms: u32, gap_ms: u32, k: u64) -> (step: Option<MotorStep>)
    ensures
        step == if k < pulse_train(pulses as nat, on_ms, gap_ms).len() {
            Some(pulse_train(pulses as nat, on_ms, gap_ms)[k as int])
        } else {
            None
        },
{
    proof {
        law_train_steps(pulses as nat, on_ms, gap_ms);
    }
    if pulses == 0 || k >= pulses as u64 * 4 - 1 {
        return None;
    }
    let phase: u64 = k % 4;
    Some(
        if phase == 0 {
            MotorStep::On
        } else if phase == 1 {
            MotorStep::Wait(on_ms)
        } else if phase == 2 {
            MotorStep::Off
        } else {
            MotorStep::Wait(gap_ms)
        },
    )
}

/// A train repeats four steps and leaves out the very last pause.
pub proof fn law_train_steps(pulses: nat, on_ms: u32, gap_ms: u32)
    ensures
        pulse_train(pulses, on_ms, gap_ms).len() == if pulses == 0 {
            0
        } else {
            4 * pulses - 1
        },
        forall|k: int|
            0 <= k < pulse_train(pulses, on_ms, gap_ms).len() ==> #[trigger] pulse_train(
                pulses,
                on_ms,
                gap_ms,
            )[k] == if k % 4 == 0 {
                MotorStep::On
            } else if k % 4 == 1 {
                MotorStep::Wait(on_ms)
            } else if k % 4 == 2 {
                MotorStep::Off
            } else {
                MotorStep::Wait(gap_ms)
            },
    decreases pulses,
{
    if pulses > 1 {
        law_train_steps((pulses - 1) as nat, on_ms, gap_ms);
    }
}

/// How long the steps take, in milliseconds.
pub open spec fn duration(steps: Seq<MotorStep>) -> int
    decreases steps.len(),
{
    if steps.len() == 0 {
        0
    } else {
        duration(steps.drop_last()) + match steps.last() {
            MotorStep::Wait(ms) => ms as int,
            _ => 0,
        }
    }
}

/// How often the steps switch the motor on.
pub open spec fn pulses_in(steps: Seq<MotorStep>) -> int
    decreases steps.len(),
{
    if steps.len() == 0 {
        0
    } else {
        pulses_in(steps.drop_last()) + if steps.last() == MotorStep::On {
            1int
        } else {
            0
        }
    }
}

proof fn lemma_add_step(steps: Seq<MotorStep>, s: MotorStep)
    ensures
        duration(steps.push(s)) == duration(steps) + match s {
            MotorStep::Wait(ms) => ms as int,
            _ => 0,
        },
        pulses_in(steps.push(s)) == pulses_in(steps) + if s == MotorStep::On {
            1int
        } else {
            0
        },
{
    assert(steps.push(s).drop_last() =~= steps);
}

proof fn lemma_add_pulse(steps: Seq<MotorStep>, on_ms: u32)
    ensures
        duration(steps + seq![MotorStep::On, MotorStep::Wait(on_ms), MotorStep::Off]) == duration(
            steps,
        ) + on_ms,
        pulses_in(steps + seq![MotorStep::On, MotorStep::Wait(on_ms), MotorStep::Off])
            == pulses_in(steps) + 1,
{
    let a = steps.push(MotorStep::On);
    let b = a.push(MotorStep::Wait(on_ms));
    lemma_add_step(steps, MotorStep::On);
    lemma_add_step(a, MotorStep::Wait(on_ms));
    lemma_add_step(b, MotorStep::Off);
    assert(steps + seq![MotorStep::On, MotorStep::Wait(on_ms), MotorStep::Off] =~= b.push(
        MotorStep::Off,
    ));
}

/// A train holds as many pulses as asked for, takes the time of the pulses and of
/// the pauses between them, and ends with the motor off.
pub proof fn law_pulse_train(pulses: nat, on_ms: u32, gap_ms: u32)
    ensures
        pulses_in(pulse_train(pulses, on_ms, gap_ms)) == pulses,
        pulses > 0 ==> duration(pulse_train(pulses, on_ms, gap_ms)) == pulses * on_ms + (pulses - 1)
            * gap_ms,
        pulses > 0 ==> pulse_train(pulses, on_ms, gap_ms).last() == MotorStep::Off,
    decreases pulses,
{
    if pulses == 1 {
        lemma_add_pulse(Seq::empty(), on_ms);
        assert(Seq::<MotorStep>::empty() + seq![
            MotorStep::On,
            MotorStep::Wait(on_ms),
            MotorStep::Off,
        ] =~= pulse_train(1, on_ms, gap_ms));
    } else if pulses > 1 {
        let m = (pulses - 1) as nat;
        let train = pulse_train(m, on_ms, gap_ms);
        law_pulse_train(m, on_ms, gap_ms);
        lemma_add_step(train, MotorStep::Wait(gap_ms));
        lemma_add_pulse(train.push(MotorStep::Wait(gap_ms)), on_ms);
        assert(train + seq![MotorStep::Wait(gap_ms)] =~= train.push(MotorStep::Wait(gap_ms)));
        assert(pulses * on_ms == m * on_ms + on_ms) by (nonlinear_arith)
            requires
                pulses == m + 1,
        ;
        assert((pulses - 1) * gap_ms == (m - 1) * gap_ms + gap_ms) by (nonlinear_arith)
            requires
                pulses == m + 1,
        ;
    }
}

} // verus!
