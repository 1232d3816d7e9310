//! What the agent reports at every tick: the values of the report, and
//! those of them that are computed from plain readings.

use crate::decimal::{parse_unsigned, parse_unsigned_span};
use crate::text::chars_of;
use vstd::prelude::*;

verus! {

/// Memory in use, in bytes.
#[derive(Clone, Copy, Debug, PartialEq, Eq, Structural)]
pub struct Ram {
    pub used: u64,
}

/// Swap space in use, in bytes.
#[derive(Clone, Copy, Debug, PartialEq, Eq, Structural)]
pub struct Swap {
    pub used: u64,
}

/// Disk space in use, in bytes.
#[derive(Clone, Copy, Debug, PartialEq, Eq, Structural)]
pub struct Disk {
    pub used: u64,
}

/// Traffic of the monitored interfaces: the present rates and the totals of
/// the cycle, in bytes.
#[derive(Clone, Copy, Debug, PartialEq, Eq, Structural)]
pub struct Network {
    pub up: u64,
    pub down: u64,
    pub total_up: u64,
    pub total_down: u64,
}

/// Open connections by protocol.
#[derive(Clone, Copy, Debug, PartialEq, Eq, Structural)]
pub struct Connections {
    pub tcp: u64,
    pub udp: u64,
}

/// `a - b`, or zero where `b` exceeds `a`.
pub open spec fn minus(a: u64, b: u64) -> int {
    if b <= a {
        a - b
    } else {
        0
    }
}

/// `x`, or `u64::MAX` where `x` is larger.
pub open spec fn capped(x: int) -> int {
    if x <= u64::MAX {
        x
    } else {
        u64::MAX as int
    }
}

/// The memory in use: what is not available of the total.
pub fn realtime_mem(total_memory: u64, available_memory: u64) -> (r: Ram)
    ensures
        r.used == minus(total_memory, available_memory),
{
    Ram { used: total_memory.saturating_sub(available_memory) }
}

/// The swap space in use.
pub fn realtime_swap(used_swap: u64) -> (r: Swap)
    ensures
        r.used == used_swap,
{
    Swap { used: used_swap }
}

/// The connections of a host that cannot count them: none.
pub fn realtime_connections() -> (r: Connections)
    ensures
        r == (Connections { tcp: 0, udp: 0 }),
{
    Connections { tcp: 0, udp: 0 }
}

/// How many of `names` are process identifiers: unsigned 32-bit numbers.
pub open spec fn process_count(names: Seq<String>) -> int
    decreases names.len(),
{
    if names.len() == 0 {
        0
    } else {
        let last: int = if parse_unsigned(names.last()@, u32::MAX as int) is Some {
            1
        } else {
            0
        };
        process_count(names.drop_last()) + last
    }
}

/// The number of processes, given the names of the entries of the process
/// directory: each process has an entry named by its number.
pub fn realtime_process(entries: &Vec<String>) -> (r: u64)
    ensures
        r == process_count(entries@),
{
    let mut count: u64 = 0;
    let mut i: usize = 0;
    while i < entries.len()
        invariant
            i <= entries.len(),
            count == process_count(entries@.take(i as int)),
            count <= i,
        decreases entries.len() - i,
    {
        assert(entries@.take(i + 1).drop_last() == entries@.take(i as int));
        let chars = chars_of(entries[i].as_str());
        assert(chars@.subrange(0, chars.len() as int) == chars@);
        if parse_unsigned_span(&chars, 0, chars.len(), 0xffff_ffff).is_some() {
            count = count + 1;
        }
        i = i + 1;
    }
    assert(entries@.take(entries.len() as int) == entries@);
    count
}

} // verus!
