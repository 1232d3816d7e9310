use komari_monitor::config::{ip_provider, log_level, IpProvider, LogLevel};
use komari_monitor::interfaces::{
    counts, filter_network, is_virtual_interface, realtime_network, InterfaceCounters,
};
use komari_monitor::offset::TrafficOffset;
use komari_monitor::report::{
    realtime_connections, realtime_mem, realtime_process, realtime_swap, Connections, Network,
    Ram, Swap,
};
use komari_monitor::text::{contains_word, text_is};

fn interface(name: &str, mac_last: u8, counters: (u64, u64, u64, u64)) -> InterfaceCounters {
    InterfaceCounters {
        name: String::from(name),
        mac_address: [0, 0, 0, 0, 0, mac_last],
        transmitted: counters.0,
        received: counters.1,
        total_transmitted: counters.2,
        total_received: counters.3,
    }
}

#[test]
fn memory_in_use_is_what_is_not_available() {
    assert_eq!(realtime_mem(16_000, 4_000), Ram { used: 12_000 });
    assert_eq!(realtime_mem(16_000, 16_000), Ram { used: 0 });
    assert_eq!(realtime_mem(16_000, 16_001), Ram { used: 0 });
    assert_eq!(realtime_swap(77), Swap { used: 77 });
}

#[test]
fn processes_are_the_entries_named_by_a_number() {
    let names = ["1", "self", "42", "4294967295", "4294967296", "net", "007", "+9", "-1", "", "1a"];
    let entries: Vec<String> = names.iter().map(|name| String::from(*name)).collect();
    assert_eq!(realtime_process(&entries), 5);
    let expected = names.iter().filter(|name| name.parse::<u32>().is_ok()).count();
    assert_eq!(realtime_process(&entries), expected as u64);
    assert_eq!(realtime_process(&Vec::new()), 0);
}

#[test]
fn reported_totals_are_the_counters_under_the_published_offset() {
    let mut offsets = TrafficOffset::new();
    let network = realtime_network(5, 6, 80, 90, &offsets);
    assert_eq!(network, Network { up: 5, down: 6, total_up: 80, total_down: 90 });
    offsets.update_traffic_offset(1000, -100);
    let network = realtime_network(5, 6, 80, 90, &offsets);
    assert_eq!(network, Network { up: 5, down: 6, total_up: 1080, total_down: 0 });
}

#[test]
fn no_connections_where_none_can_be_counted() {
    assert_eq!(realtime_connections(), Connections { tcp: 0, udp: 0 });
}

#[test]
fn words_are_found_anywhere() {
    let name: Vec<char> = "docker0".chars().collect();
    assert!(contains_word(&name, "docker"));
    assert!(contains_word(&name, "0"));
    assert!(contains_word(&name, "ker0"));
    assert!(contains_word(&name, "docker0"));
    assert!(contains_word(&name, ""));
    assert!(!contains_word(&name, "docker00"));
    assert!(!contains_word(&name, "dock0"));
    assert!(!contains_word(&Vec::new(), "x"));
    assert!(contains_word(&Vec::new(), ""));
    assert!(text_is(&name, "docker0"));
    assert!(!text_is(&name, "docker"));
    assert!(!text_is(&name, "docker00"));
    assert!(text_is(&Vec::new(), ""));
}

#[test]
fn virtual_interfaces_are_told_by_name() {
    for name in [
        "br0", "cni0", "docker0", "podman1", "flannel.1", "lo", "veth12ab", "virbr0", "vmbr0",
        "tap0", "tun0", "fwln100i0", "fwpr100p0", "wlo1", "enbr", "Local Area lo", "ens3-lo",
    ] {
        assert!(is_virtual_interface(name), "{}", name);
        let known = [
            "br", "cni", "docker", "podman", "flannel", "lo", "veth", "virbr", "vmbr", "tap",
            "tun", "fwln", "fwpr",
        ];
        assert!(known.iter().any(|word| name.contains(word)));
    }
    for name in [
        "eth0", "ens3", "enp0s31f6", "wlan0", "Ethernet", "LO", "BR0", "", "ta-p", "WLAN",
        "Local Area",
    ] {
        assert!(!is_virtual_interface(name), "{}", name);
    }
}

#[test]
fn interfaces_without_hardware_address_do_not_count() {
    assert!(counts(&interface("eth0", 1, (0, 0, 0, 0))));
    assert!(!counts(&interface("eth0", 0, (0, 0, 0, 0))));
    assert!(!counts(&interface("docker0", 1, (0, 0, 0, 0))));
    let mut first = interface("eth0", 0, (0, 0, 0, 0));
    first.mac_address[0] = 2;
    assert!(counts(&first));
}

#[test]
fn counters_of_the_monitored_interfaces_are_summed() {
    assert_eq!(filter_network(&Vec::new()), (0, 0, 0, 0));
    let interfaces = vec![
        interface("eth0", 1, (1, 2, 300, 400)),
        interface("lo", 1, (10, 20, 3000, 4000)),
        interface("eth1", 0, (100, 200, 30_000, 40_000)),
        interface("wlan0", 7, (1000, 2000, 300_000, 400_000)),
        interface("veth9", 7, (5, 5, 5, 5)),
    ];
    assert_eq!(filter_network(&interfaces), (1001, 2002, 300_300, 400_400));
}

#[test]
fn sums_of_counters_do_not_wrap() {
    let interfaces = vec![
        interface("eth0", 1, (u64::MAX, 1, u64::MAX - 1, 0)),
        interface("eth1", 1, (1, u64::MAX, 1, 0)),
        interface("eth2", 1, (0, 0, 0, 9)),
    ];
    assert_eq!(filter_network(&interfaces), (u64::MAX, u64::MAX, u64::MAX, 9));
}

#[test]
fn defaults_of_the_agent() {
    assert_eq!(ip_provider(), IpProvider::Ipinfo);
    assert_eq!(log_level(), LogLevel::Info);
}
