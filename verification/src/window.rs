//! The configuration window: how long the device stays visible to the phone.

use vstd::prelude::*;

verus! {

/// How long the window stays open while no phone is connected, in milliseconds.
pub const IDLE_WINDOW_MS: u32 = 30_000;

/// How long the window stays open at most, in milliseconds.
pub const MAX_WINDOW_MS: u32 = 300_000;

/// Time between two looks at the connection, in milliseconds.
pub const WINDOW_TICK_MS: u32 = 500;

/// The window closes after `waited` milliseconds: no phone is connected and the
/// idle time is over, or the longest time is.
pub open spec fn window_closes(waited: int, connected: bool) -> bool {
    !connected && waited >= IDLE_WINDOW_MS || waited >= MAX_WINDOW_MS
}

/// `next` is how long a window has been open after one more tick, at the end of
/// which the phone is connected or not; `None` if it closes.
pub open spec fn ticks_to(waited: int, connected: bool, next: Option<u32>) -> bool {
    &&& next is None <==> window_closes(waited + WINDOW_TICK_MS, connected)
    &&& next is Some ==> next->0 == waited + WINDOW_TICK_MS
}

/// One more tick of a window that was open for `waited_ms` milliseconds, at the
/// end of which the phone is connected or not: how long the window has been
/// open, or `None` if it closes.
pub fn window_tick(waited_ms: u32, connected: bool) -> (r: Option<u32>)
    ensures
        ticks_to(waited_ms as int, connected, r),
{
    if waited_ms >= MAX_WINDOW_MS - WINDOW_TICK_MS {
        return None;
    }
    let waited: u32 = waited_ms + WINDOW_TICK_MS;
    if !connected && waited >= IDLE_WINDOW_MS {
        None
    } else {
        Some(waited)
    }
}

/// How long a window is open after ticks that found the connection as in
/// `connected`; `None` if it has closed.
pub open spec fn window_after(connected: Seq<bool>) -> Option<int>
    decreases connected.len(),
{
    if connected.len() == 0 {
        Some(0)
    } else {
        match window_after(connected.drop_last()) {
            None => None,
            Some(waited) => if window_closes(waited + WINDOW_TICK_MS, connected.last()) {
                None
            } else {
                Some(waited + WINDOW_TICK_MS)
            },
        }
    }
}

/// Ticking one after another tells how long the window is open after all ticks.
pub proof fn law_ticking_step_by_step(
    connected: Seq<bool>,
    waited: int,
    now_connected: bool,
    next: Option<u32>,
)
    requires
        window_after(connected) == Some(waited),
        ticks_to(waited, now_connected, next),
    ensures
        window_after(connected.push(now_connected)) == match next {
            Some(w) => Some(w as int),
            None => None,
        },
{
    assert(connected.push(now_connected).drop_last() =~= connected);
}

/// The window is open exactly as long as no tick has closed it.
pub proof fn law_window_open_iff(connected: Seq<bool>)
    ensures
        window_after(connected) is Some <==> forall|k: int|
            0 <= k < connected.len() ==> !window_closes(
                (k + 1) * WINDOW_TICK_MS,
                #[trigger] connected[k],
            ),
        window_after(connected) is Some ==> window_after(connected)->0 == connected.len()
            * WINDOW_TICK_MS,
    decreases connected.len(),
{
    if connected.len() > 0 {
        let n = connected.len() - 1;
        let before = connected.drop_last();
        law_window_open_iff(before);
        assert(forall|k: int| 0 <= k < n ==> #[trigger] connected[k] == before[k]);
        if window_after(before) is None {
            let k = choose|k: int|
                0 <= k < before.len() && window_closes(
                    (k + 1) * WINDOW_TICK_MS,
                    #[trigger] before[k],
                );
            assert(window_closes((k + 1) * WINDOW_TICK_MS, connected[k]));
        }
    }
}

/// The window is open for less than the idle time whatever the phone does, and
/// never for the longest time. In between, it closes at the first tick that
/// finds no phone: without a phone right after the idle time, and with one that
/// stays not before the longest time.
pub proof fn law_window_bounds(connected: Seq<bool>)
    ensures
        connected.len() * WINDOW_TICK_MS < IDLE_WINDOW_MS ==> window_after(connected) is Some,
        connected.len() * WINDOW_TICK_MS >= MAX_WINDOW_MS ==> window_after(connected) is None,
        connected.len() * WINDOW_TICK_MS >= IDLE_WINDOW_MS && !connected.last() ==> window_after(
            connected,
        ) is None,
        connected.len() * WINDOW_TICK_MS < MAX_WINDOW_MS && (forall|k: int|
            0 <= k < connected.len() ==> #[trigger] connected[k]) ==> window_after(
            connected,
        ) is Some,
{
    law_window_open_iff(connected);
    if connected.len() > 0 {
        let last = connected[connected.len() - 1];
        assert(connected.last() == last);
    }
}

} // verus!
