//! Offsets between the interface counters and the totals of the cycle.
//!
//! The counters of the interfaces restart from zero with the agent and with
//! the host; the total of a cycle goes on. The offset is what is added to a
//! counter to get the total. Three values at the low end of its range are no
//! offsets but marks: they say that the offset must be computed anew, and
//! why.

use vstd::prelude::*;

verus! {

/// Mark: a new cycle began or the configuration changed. Also what a record
/// without offsets is read as.
pub const OFFSET_STALE: i64 = i64::MIN;

/// Mark: the host was restarted.
pub const OFFSET_AFTER_REBOOT: i64 = i64::MIN + 1;

/// Mark: the record was just created.
pub const OFFSET_FRESH: i64 = i64::MIN + 2;

/// The least value that is an offset and no mark.
pub const MIN_VALID_OFFSET: i64 = i64::MIN + 3;

/// Why an offset must be computed anew.
#[derive(Clone, Copy, Debug, PartialEq, Eq, Structural)]
pub enum Reason {
    /// A new cycle began or the configuration changed.
    NewCycle,
    /// The host was restarted, so the counters began again at zero.
    Reboot,
    /// The record was just created.
    FreshFile,
}

/// What the offset field of a record says.
#[derive(Clone, Copy, Debug, PartialEq, Eq, Structural)]
pub enum OffsetState {
    /// The offset to use.
    Valid(i64),
    /// There is no offset: one must be computed.
    NeedsRecompute(Reason),
}

/// What an offset field says: a mark, or the offset itself.
pub open spec fn offset_state(offset: i64) -> OffsetState {
    if offset == OFFSET_STALE {
        OffsetState::NeedsRecompute(Reason::NewCycle)
    } else if offset == OFFSET_AFTER_REBOOT {
        OffsetState::NeedsRecompute(Reason::Reboot)
    } else if offset == OFFSET_FRESH {
        OffsetState::NeedsRecompute(Reason::FreshFile)
    } else {
        OffsetState::Valid(offset)
    }
}

/// `x`, or the bound of `low..=high` nearest to it.
pub open spec fn clamp(x: int, low: int, high: int) -> int {
    if x < low {
        low
    } else if x > high {
        high
    } else {
        x
    }
}

/// The offset that makes a counter reading `raw` show `total`: their
/// difference, kept within the offsets that are no marks.
pub open spec fn stitched_offset(total: u64, raw: u64) -> i64 {
    clamp(total - raw, MIN_VALID_OFFSET as int, i64::MAX as int) as i64
}

/// The offset after a restart of the host, when the counters read zero: the
/// total itself, kept within the range of an offset.
pub open spec fn carried_offset(total: u64) -> i64 {
    clamp(total as int, 0, i64::MAX as int) as i64
}

/// The total that a counter reading `raw` shows under `offset`: their sum,
/// not below zero and not above what 64 bits hold.
pub open spec fn cumulative(raw: u64, offset: i64) -> u64 {
    clamp(raw + offset, 0, u64::MAX as int) as u64
}

/// Reads an offset field.
pub fn classify_offset(offset: i64) -> (r: OffsetState)
    ensures
        r == offset_state(offset),
{
    if offset == OFFSET_STALE {
        OffsetState::NeedsRecompute(Reason::NewCycle)
    } else if offset == OFFSET_AFTER_REBOOT {
        OffsetState::NeedsRecompute(Reason::Reboot)
    } else if offset == OFFSET_FRESH {
        OffsetState::NeedsRecompute(Reason::FreshFile)
    } else {
        OffsetState::Valid(offset)
    }
}

/// The offset that makes a counter reading `raw` show `total`.
pub fn stitch_offset(total: u64, raw: u64) -> (r: i64)
    ensures
        r == stitched_offset(total, raw),
        offset_state(r) is Valid,
        MIN_VALID_OFFSET <= total - raw <= i64::MAX ==> raw + r == total,
{
    let difference: i128 = total as i128 - raw as i128;
    if difference < MIN_VALID_OFFSET as i128 {
        MIN_VALID_OFFSET
    } else if difference > i64::MAX as i128 {
        i64::MAX
    } else {
        difference as i64
    }
}

/// The offset after a restart of the host.
pub fn carry_offset(total: u64) -> (r: i64)
    ensures
        r == carried_offset(total),
        offset_state(r) is Valid,
{
    if total > i64::MAX as u64 {
        i64::MAX
    } else {
        total as i64
    }
}

/// The total that a counter reading `raw` shows under `offset`.
pub fn cumulative_total(raw: u64, offset: i64) -> (r: u64)
    ensures
        r == cumulative(raw, offset),
{
    let sum: i128 = raw as i128 + offset as i128;
    if sum < 0 {
        0
    } else if sum > u64::MAX as i128 {
        u64::MAX
    } else {
        sum as u64
    }
}

/// The pair of offsets that the accounting has published last.
///
/// The accounting writes it once per cycle; the reporting reads it at every
/// report to turn the counters into totals.
#[derive(Clone, Copy, Debug, PartialEq, Eq, Structural)]
pub struct TrafficOffset {
    pub tx: i64,
    pub rx: i64,
}

impl TrafficOffset {
    /// Offsets of zero: the totals are the counters themselves.
    pub fn new() -> (r: TrafficOffset)
        ensures
            r == (TrafficOffset { tx: 0, rx: 0 }),
    {
        TrafficOffset { tx: 0, rx: 0 }
    }

    /// Replaces both offsets at once.
    pub fn update_traffic_offset(&mut self, tx: i64, rx: i64)
        ensures
            *final(self) == (TrafficOffset { tx, rx }),
    {
        self.tx = tx;
        self.rx = rx;
    }

    /// The offsets published last, sent then received.
    pub fn current_offsets(&self) -> (r: (i64, i64))
        ensures
            r == (self.tx, self.rx),
    {
        (self.tx, self.rx)
    }

    /// The totals to report for the counters `raw_tx` and `raw_rx`.
    pub fn totals(&self, raw_tx: u64, raw_rx: u64) -> (r: (u64, u64))
        ensures
            r == (cumulative(raw_tx, self.tx), cumulative(raw_rx, self.rx)),
    {
        (cumulative_total(raw_tx, self.tx), cumulative_total(raw_rx, self.rx))
    }
}

/// A stitched offset carries the total over: the counter it was computed
/// for shows the total again, as long as their difference is an offset and
/// no mark.
pub proof fn lemma_offset_continuity(total: u64, raw: u64)
    requires
        MIN_VALID_OFFSET <= total - raw <= i64::MAX,
    ensures
        raw + stitched_offset(total, raw) == total,
        cumulative(raw, stitched_offset(total, raw)) == total,
{
}

} // verus!
