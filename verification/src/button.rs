//! The button: telling a long press from a short one, and waiting for release.

use vstd::prelude::*;

verus! {

/// How long the button is held to enter configuration, in milliseconds.
pub const LONG_PRESS_MS: u32 = 2_000;

/// How long to wait for release before sleeping, in milliseconds.
pub const RELEASE_WAIT_MS: u32 = 3_000;

/// Time between two readings of the button, in milliseconds.
pub const BUTTON_POLL_MS: u32 = 50;

/// `next` is what follows a reading of the button after it was held for `held`
/// milliseconds: while it is pressed and the limit is not reached, wait for one
/// more period; else stop.
pub open spec fn polls_to(held: int, pressed: bool, limit: int, next: Option<u32>) -> bool {
    &&& next is Some <==> pressed && held < limit
    &&& next is Some ==> next->0 == held + BUTTON_POLL_MS
}

/// One reading of the button after waking: how long it will have been held
/// after one more period, or `None` to stop.
pub fn poll_long_press(held_ms: u32, pressed: bool) -> (next: Option<u32>)
    ensures
        polls_to(held_ms as int, pressed, LONG_PRESS_MS as int, next),
{
    if pressed && held_ms < LONG_PRESS_MS {
        Some(held_ms + BUTTON_POLL_MS)
    } else {
        None
    }
}

/// Whether the button was held long enough to enter configuration.
pub fn is_long_press(held_ms: u32) -> (b: bool)
    ensures
        b == (held_ms >= LONG_PRESS_MS),
{
    held_ms >= LONG_PRESS_MS
}

/// One reading of the button before sleeping: a pressed button would wake the
/// device at once, so its release is awaited, for a limited time.
pub fn poll_release(held_ms: u32, pressed: bool) -> (next: Option<u32>)
    ensures
        polls_to(held_ms as int, pressed, RELEASE_WAIT_MS as int, next),
{
    if pressed && held_ms < RELEASE_WAIT_MS {
        Some(held_ms + BUTTON_POLL_MS)
    } else {
        None
    }
}

/// How long the button was held when polling stops, from readings `pressed`
/// taken after it was held for `held`; polling stops where they end.
pub open spec fn held_after(held: int, pressed: Seq<bool>, limit: int) -> int
    decreases pressed.len(),
{
    if pressed.len() > 0 && pressed[0] && held < limit {
        held_after(held + BUTTON_POLL_MS, pressed.drop_first(), limit)
    } else {
        held
    }
}

/// Polling one reading after another ends with the time held over all readings.
pub proof fn law_polling_step_by_step(
    held: int,
    pressed: Seq<bool>,
    limit: int,
    next: Option<u32>,
)
    requires
        pressed.len() > 0,
        polls_to(held, pressed[0], limit, next),
    ensures
        held_after(held, pressed, limit) == match next {
            Some(h) => held_after(h as int, pressed.drop_first(), limit),
            None => held,
        },
{
}

/// Polling never runs past the limit by as much as one period, however long the
/// button is held.
pub proof fn law_polling_ends(held: int, pressed: Seq<bool>, limit: int)
    requires
        held <= limit,
    ensures
        held <= held_after(held, pressed, limit) < limit + BUTTON_POLL_MS,
    decreases pressed.len(),
{
    reveal_with_fuel(held_after, 2);
    if pressed.len() > 0 && pressed[0] && held < limit {
        let next = held + BUTTON_POLL_MS;
        if next <= limit {
            law_polling_ends(next, pressed.drop_first(), limit);
        }
    }
}

/// After `n` whole periods to go, the limit is reached exactly if the first `n`
/// readings all find the button pressed.
proof fn lemma_limit_reached(held: int, pressed: Seq<bool>, limit: int, n: nat)
    requires
        limit - held == n * BUTTON_POLL_MS,
        pressed.len() >= n,
    ensures
        held_after(held, pressed, limit) >= limit <==> forall|k: int|
            0 <= k < n ==> #[trigger] pressed[k],
    decreases n,
{
    if n > 0 {
        let m = (n - 1) as nat;
        let rest = pressed.drop_first();
        lemma_limit_reached(held + BUTTON_POLL_MS, rest, limit, m);
        assert(forall|k: int| 0 <= k < m ==> rest[k] == #[trigger] pressed[k + 1]);
        if forall|k: int| 0 <= k < m ==> #[trigger] rest[k] {
            assert forall|k: int| 1 <= k < n implies #[trigger] pressed[k] by {
                assert(rest[k - 1] == pressed[k]);
            }
        }
        if forall|k: int| 0 <= k < n ==> #[trigger] pressed[k] {
            assert forall|k: int| 0 <= k < m implies #[trigger] rest[k] by {
                assert(rest[k] == pressed[k + 1]);
            }
        }
    }
}

/// A press counts as long exactly if every one of the readings over the whole
/// time finds the button pressed; a shorter press is ignored.
pub proof fn law_long_press_is_uninterrupted(pressed: Seq<bool>)
    requires
        pressed.len() * BUTTON_POLL_MS >= LONG_PRESS_MS,
    ensures
        held_after(0, pressed, LONG_PRESS_MS as int) >= LONG_PRESS_MS <==> forall|k: int|
            0 <= k && k * BUTTON_POLL_MS < LONG_PRESS_MS ==> #[trigger] pressed[k],
{
    lemma_limit_reached(0, pressed, LONG_PRESS_MS as int, 40);
    if forall|k: int| 0 <= k < 40 ==> #[trigger] pressed[k] {
        assert forall|k: int| 0 <= k && k * BUTTON_POLL_MS < LONG_PRESS_MS implies
            #[trigger] pressed[k] by {
            assert(k < 40);
        }
    }
}

} // verus!
