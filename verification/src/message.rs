//! What the phone writes while the configuration window is open.

use vstd::prelude::*;

use crate::bytes::{le_signed, le_value, read_i16, read_le, signed};
use crate::calibration::{ClockCal, SyncOutcome};

verus! {

/// Length of the shortest time message, local time alone.
pub const LOCAL_TIME_LEN: usize = 8;

/// Length of a time message with UTC and the offset of the zone.
pub const ZONED_TIME_LEN: usize = 10;

/// A time message, all numbers little-endian.
#[derive(Debug, Clone, Copy, PartialEq, Eq, Structural)]
pub enum TimeMessage {
    /// UTC in seconds, eight bytes, and the offset of the zone in minutes, two
    /// bytes.
    Zoned { utc_epoch: u64, offset_min: i16 },
    /// Local time in seconds, eight bytes, from a phone that knows no zones.
    Local { local_epoch: u64 },
}

/// `m` is the time message in the bytes `b`. Ten bytes or more carry the zone;
/// fewer carry local time in the first eight.
pub open spec fn is_time_message(b: Seq<u8>, m: TimeMessage) -> bool {
    if b.len() >= ZONED_TIME_LEN {
        m matches TimeMessage::Zoned { utc_epoch, offset_min } && utc_epoch == le_value(
            b.subrange(0, 8),
        ) && offset_min == le_signed(b.subrange(8, 10))
    } else {
        m matches TimeMessage::Local { local_epoch } && local_epoch == le_value(b.subrange(0, 8))
    }
}

/// `kept` is the message that waits after the phone wrote `data` while `pending`
/// waited: the write if it is long enough to hold a time, else the one before.
pub open spec fn accepts(
    pending: Option<Vec<u8>>,
    data: Vec<u8>,
    kept: Option<Vec<u8>>,
) -> bool {
    kept == if data@.len() >= LOCAL_TIME_LEN {
        Some(data)
    } else {
        pending
    }
}

/// The time message that waits to be applied after the phone wrote `data`: the
/// last one that was long enough. A write too short to hold a time is dropped.
pub fn accept_time_write(pending: Option<Vec<u8>>, data: Vec<u8>) -> (kept: Option<Vec<u8>>)
    ensures
        accepts(pending, data, kept),
{
    if data.len() >= LOCAL_TIME_LEN {
        Some(data)
    } else {
        pending
    }
}

/// The bytes of a message that waits.
pub open spec fn bytes_of(pending: Option<Vec<u8>>) -> Option<Seq<u8>> {
    match pending {
        Some(b) => Some(b@),
        None => None,
    }
}

/// The message that waits after the writes `writes`, the oldest first.
pub open spec fn pending_after(writes: Seq<Seq<u8>>) -> Option<Seq<u8>>
    decreases writes.len(),
{
    if writes.len() == 0 {
        None
    } else if writes.last().len() >= LOCAL_TIME_LEN {
        Some(writes.last())
    } else {
        pending_after(writes.drop_last())
    }
}

/// Accepting one write after another keeps the message that waits after all of
/// them.
pub proof fn law_accepting_step_by_step(
    writes: Seq<Seq<u8>>,
    pending: Option<Vec<u8>>,
    data: Vec<u8>,
    kept: Option<Vec<u8>>,
)
    requires
        bytes_of(pending) == pending_after(writes),
        accepts(pending, data, kept),
    ensures
        bytes_of(kept) == pending_after(writes.push(data@)),
{
    assert(writes.push(data@).drop_last() =~= writes);
}

/// The message that waits is the latest write that was long enough, and there is
/// one as soon as there was such a write. It can always be read as a message.
pub proof fn law_latest_full_write_waits(writes: Seq<Seq<u8>>)
    ensures
        pending_after(writes) is Some <==> exists|k: int|
            0 <= k < writes.len() && #[trigger] writes[k].len() >= LOCAL_TIME_LEN,
        pending_after(writes) matches Some(b) ==> b.len() >= LOCAL_TIME_LEN && exists|k: int|
            0 <= k < writes.len() && #[trigger] writes[k] == b && forall|j: int|
                k < j < writes.len() ==> #[trigger] writes[j].len() < LOCAL_TIME_LEN,
    decreases writes.len(),
{
    if writes.len() > 0 {
        let n = writes.len() - 1;
        assert(writes[n] == writes.last());
        if writes.last().len() < LOCAL_TIME_LEN {
            let before = writes.drop_last();
            law_latest_full_write_waits(before);
            assert(forall|k: int| 0 <= k < n ==> #[trigger] before[k] == writes[k]);
            if exists|k: int|
                0 <= k < writes.len() && #[trigger] writes[k].len() >= LOCAL_TIME_LEN {
                let k = choose|k: int|
                    0 <= k < writes.len() && #[trigger] writes[k].len() >= LOCAL_TIME_LEN;
                assert(before[k].len() >= LOCAL_TIME_LEN);
            }
            if pending_after(before) is Some {
                let b = pending_after(before)->0;
                let k = choose|k: int|
                    0 <= k < before.len() && #[trigger] before[k] == b && forall|j: int|
                        k < j < before.len() ==> #[trigger] before[j].len() < LOCAL_TIME_LEN;
                assert(writes[k] == b);
                assert forall|j: int| k < j < writes.len() implies #[trigger] writes[j].len()
                    < LOCAL_TIME_LEN by {
                    if j < n {
                        assert(before[j].len() < LOCAL_TIME_LEN);
                    }
                }
            }
        }
    }
}

/// Reads a time message.
pub fn parse_time(b: &[u8]) -> (m: TimeMessage)
    requires
        b@.len() >= LOCAL_TIME_LEN,
    ensures
        is_time_message(b@, m),
{
    if b.len() >= ZONED_TIME_LEN {
        TimeMessage::Zoned { utc_epoch: read_le(b, 0, 8), offset_min: read_i16(b, 8) }
    } else {
        TimeMessage::Local { local_epoch: read_le(b, 0, 8) }
    }
}

impl TimeMessage {
    /// The numbers of the synchronisation fit into 64 bits.
    pub open spec fn in_range(self, cal: ClockCal, dev_local: int) -> bool {
        self matches TimeMessage::Zoned { utc_epoch, offset_min } ==> cal.sync_in_range(
            dev_local,
            signed(utc_epoch as int, 8),
            offset_min as int,
        )
    }

    /// `out` is the outcome of the message on a device with calibration `cal`
    /// whose clock shows `dev_local`.
    pub open spec fn leads_to(self, cal: ClockCal, dev_local: int, out: SyncOutcome) -> bool {
        match self {
            TimeMessage::Zoned { utc_epoch, offset_min } => cal.synced(
                dev_local,
                signed(utc_epoch as int, 8),
                offset_min as int,
                out,
            ),
            TimeMessage::Local { local_epoch } => cal.synced_local(local_epoch, out),
        }
    }

    /// Whether [`apply`](TimeMessage::apply) may be called.
    pub fn can_apply(&self, cal: &ClockCal, dev_local: i64) -> (b: bool)
        ensures
            b == self.in_range(*cal, dev_local as int),
    {
        match *self {
            TimeMessage::Zoned { utc_epoch, offset_min } => cal.can_sync(
                dev_local,
                utc_epoch,
                offset_min,
            ),
            TimeMessage::Local { .. } => true,
        }
    }

    /// Synchronises a device with calibration `cal` whose clock shows
    /// `dev_local`.
    pub fn apply(&self, cal: &ClockCal, dev_local: i64) -> (out: SyncOutcome)
        requires
            self.in_range(*cal, dev_local as int),
        ensures
            self.leads_to(*cal, dev_local as int, out),
    {
        match *self {
            TimeMessage::Zoned { utc_epoch, offset_min } => cal.on_time_sync(
                dev_local,
                utc_epoch,
                offset_min,
            ),
            TimeMessage::Local { local_epoch } => cal.on_time_sync_legacy(local_epoch),
        }
    }
}

} // verus!
