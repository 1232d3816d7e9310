//! The network interfaces of the host: which of them count, and what their
//! counters add up to.

use crate::offset::{cumulative, TrafficOffset};
use crate::report::{capped, Network};
use crate::text::{chars_of, contains_word, has_infix};
use vstd::prelude::*;

verus! {

/// The counters of one network interface, as the system reports them.
#[derive(Debug)]
pub struct InterfaceCounters {
    /// Name of the interface.
    pub name: String,
    /// Hardware address of the interface.
    pub mac_address: [u8; 6],
    /// Bytes sent since the counters were last read.
    pub transmitted: u64,
    /// Bytes received since the counters were last read.
    pub received: u64,
    /// Bytes sent since the interface came up.
    pub total_transmitted: u64,
    /// Bytes received since the interface came up.
    pub total_received: u64,
}

/// An `InterfaceCounters` as plain values.
pub struct InterfaceView {
    pub name: Seq<char>,
    pub mac_address: Seq<u8>,
    pub transmitted: u64,
    pub received: u64,
    pub total_transmitted: u64,
    pub total_received: u64,
}

impl View for InterfaceCounters {
    type V = InterfaceView;

    open spec fn view(&self) -> InterfaceView {
        InterfaceView {
            name: self.name@,
            mac_address: self.mac_address@,
            transmitted: self.transmitted,
            received: self.received,
            total_transmitted: self.total_transmitted,
            total_received: self.total_received,
        }
    }
}

/// The name is that of a bridge, a container or tunnel interface, or the
/// loopback: it holds one of the words that such names are made with.
pub open spec fn is_virtual_name(name: Seq<char>) -> bool {
    ||| has_infix(name, "br"@)
    ||| has_infix(name, "cni"@)
    ||| has_infix(name, "docker"@)
    ||| has_infix(name, "podman"@)
    ||| has_infix(name, "flannel"@)
    ||| has_infix(name, "lo"@)
    ||| has_infix(name, "veth"@)
    ||| has_infix(name, "virbr"@)
    ||| has_infix(name, "vmbr"@)
    ||| has_infix(name, "tap"@)
    ||| has_infix(name, "tun"@)
    ||| has_infix(name, "fwln"@)
    ||| has_infix(name, "fwpr"@)
}

/// The hardware address is all zeros.
pub open spec fn is_null_address(mac_address: Seq<u8>) -> bool {
    forall|i: int| 0 <= i < mac_address.len() ==> mac_address[i] == 0
}

/// The interface counts: its name is not that of a virtual interface and
/// it has a hardware address.
pub open spec fn is_monitored(interface: InterfaceView) -> bool {
    !is_virtual_name(interface.name) && !is_null_address(interface.mac_address)
}

/// The sums of the four counters over the interfaces that count, in the
/// order sent, received, total sent, total received.
pub open spec fn monitored_sums(interfaces: Seq<InterfaceView>) -> (int, int, int, int)
    decreases interfaces.len(),
{
    if interfaces.len() == 0 {
        (0, 0, 0, 0)
    } else {
        let before = monitored_sums(interfaces.drop_last());
        let last = interfaces.last();
        if is_monitored(last) {
            (
                before.0 + last.transmitted,
                before.1 + last.received,
                before.2 + last.total_transmitted,
                before.3 + last.total_received,
            )
        } else {
            before
        }
    }
}

/// The views of a list of interfaces.
pub open spec fn interface_views(interfaces: Seq<InterfaceCounters>) -> Seq<InterfaceView> {
    interfaces.map_values(|interface: InterfaceCounters| interface@)
}

/// The four sums are not negative.
pub proof fn lemma_monitored_sums_nonnegative(interfaces: Seq<InterfaceView>)
    ensures
        monitored_sums(interfaces).0 >= 0,
        monitored_sums(interfaces).1 >= 0,
        monitored_sums(interfaces).2 >= 0,
        monitored_sums(interfaces).3 >= 0,
    decreases interfaces.len(),
{
    if interfaces.len() > 0 {
        lemma_monitored_sums_nonnegative(interfaces.drop_last());
    }
}

/// Whether `name` is the name of a virtual interface.
pub fn is_virtual_interface(name: &str) -> (r: bool)
    ensures
        r == is_virtual_name(name@),
{
    let chars = chars_of(name);
    contains_word(&chars, "br") || contains_word(&chars, "cni") || contains_word(&chars, "docker")
        || contains_word(&chars, "podman") || contains_word(&chars, "flannel") || contains_word(
        &chars,
        "lo",
    ) || contains_word(&chars, "veth") || contains_word(&chars, "virbr") || contains_word(
        &chars,
        "vmbr",
    ) || contains_word(&chars, "tap") || contains_word(&chars, "tun") || contains_word(
        &chars,
        "fwln",
    ) || contains_word(&chars, "fwpr")
}

/// Whether the interface counts.
pub fn counts(interface: &InterfaceCounters) -> (r: bool)
    ensures
        r == is_monitored(interface@),
{
    let mac = &interface.mac_address;
    let null = mac[0] == 0 && mac[1] == 0 && mac[2] == 0 && mac[3] == 0 && mac[4] == 0 && mac[5]
        == 0;
    !is_virtual_interface(interface.name.as_str()) && !null
}

/// Sums the counters of the interfaces that count: sent, received, total
/// sent and total received, each `u64::MAX` where the sum is larger.
pub fn filter_network(interfaces: &Vec<InterfaceCounters>) -> (r: (u64, u64, u64, u64))
    ensures
        r.0 == capped(monitored_sums(interface_views(interfaces@)).0),
        r.1 == capped(monitored_sums(interface_views(interfaces@)).1),
        r.2 == capped(monitored_sums(interface_views(interfaces@)).2),
        r.3 == capped(monitored_sums(interface_views(interfaces@)).3),
{
    let ghost views = interface_views(interfaces@);
    let mut up: u64 = 0;
    let mut down: u64 = 0;
    let mut total_up: u64 = 0;
    let mut total_down: u64 = 0;
    let mut i: usize = 0;
    while i < interfaces.len()
        invariant
            i <= interfaces.len(),
            views == interface_views(interfaces@),
            up == capped(monitored_sums(views.take(i as int)).0),
            down == capped(monitored_sums(views.take(i as int)).1),
            total_up == capped(monitored_sums(views.take(i as int)).2),
            total_down == capped(monitored_sums(views.take(i as int)).3),
        decreases interfaces.len() - i,
    {
        proof {
            assert(views.take(i + 1).drop_last() == views.take(i as int));
            assert(views.take(i + 1).last() == interfaces@[i as int]@);
            lemma_monitored_sums_nonnegative(views.take(i as int));
        }
        let interface = &interfaces[i];
        if counts(interface) {
            up = up.saturating_add(interface.transmitted);
            down = down.saturating_add(interface.received);
            total_up = total_up.saturating_add(interface.total_transmitted);
            total_down = total_down.saturating_add(interface.total_received);
        }
        i = i + 1;
    }
    assert(views.take(interfaces.len() as int) == views);
    (up, down, total_up, total_down)
}

/// The traffic to report: the rates as given, and for each direction the
/// total that its counter shows under the published offset.
pub fn realtime_network(
    up: u64,
    down: u64,
    raw_total_up: u64,
    raw_total_down: u64,
    offsets: &TrafficOffset,
) -> (r: Network)
    ensures
        r == (Network {
            up,
            down,
            total_up: cumulative(raw_total_up, offsets.tx),
            total_down: cumulative(raw_total_down, offsets.rx),
        }),
{
    let (total_up, total_down) = offsets.totals(raw_total_up, raw_total_down);
    Network { up, down, total_up, total_down }
}

} // verus!
