use komari_monitor::config::{NetworkConfig, TrafficPeriod};
use komari_monitor::driver::apply_sample;
use komari_monitor::offset::{
    cumulative_total, OFFSET_AFTER_REBOOT, OFFSET_FRESH, OFFSET_STALE,
};
use komari_monitor::record::NetworkInfo;
use komari_monitor::recovery::{
    check_boot, check_config, initialize_network_state_and_offset, load_record, new_record,
    resolve_offsets, restart_cycle, roll_over,
};
use komari_monitor::scheduler::{calculate_next_reset_timestamp, Moment, SchedulerError};

/// 2024-02-15T00:00:00Z.
const NOW: i64 = 1_707_955_200;

/// 2024-02-29T00:00:00Z.
const END_OF_FEBRUARY: i64 = 1_709_164_800;

/// 2024-02-19T00:00:00Z, a Monday.
const NEXT_MONDAY: i64 = 1_708_300_800;

fn monthly() -> NetworkConfig {
    NetworkConfig {
        disable_network_statistics: false,
        network_interval: 10,
        network_save_path: String::from("/etc/komari-network.conf"),
        traffic_period: TrafficPeriod::Month,
        traffic_reset_day: String::from("31"),
    }
}

fn weekly() -> NetworkConfig {
    NetworkConfig {
        traffic_period: TrafficPeriod::Week,
        traffic_reset_day: String::from("mon"),
        ..monthly()
    }
}

fn stored(boot_id: &str, tx: u64, rx: u64, offset_tx: i64, offset_rx: i64) -> NetworkInfo {
    NetworkInfo {
        config: monthly(),
        boot_id: String::from(boot_id),
        cycle_total_tx: tx,
        cycle_total_rx: rx,
        next_reset_timestamp: END_OF_FEBRUARY,
        offset_tx,
        offset_rx,
    }
}

fn recover(
    config: &NetworkConfig,
    text: &str,
    host_boot_id: &str,
    raw_tx: u64,
    raw_rx: u64,
) -> NetworkInfo {
    initialize_network_state_and_offset(config, text, Moment::utc(NOW), host_boot_id, raw_tx, raw_rx)
        .unwrap()
}

#[test]
fn empty_file_gives_a_fresh_record_with_offsets_of_zero() {
    let info = recover(&monthly(), "", "A", 500, 700);
    assert_eq!(info, stored("A", 0, 0, 0, 0));
    let loaded = load_record(&monthly(), "", Moment::utc(NOW), "A").unwrap();
    assert_eq!(loaded, stored("A", 0, 0, OFFSET_FRESH, OFFSET_FRESH));
}

#[test]
fn restart_of_the_agent_keeps_the_stored_offset() {
    let before = stored("A", 1000, 2000, 400, -300);
    let info = recover(&monthly(), &before.encode(), "A", 650, 2400);
    // The offset is not computed anew: the bytes counted since the last
    // write are not counted twice.
    assert_eq!(info, before);
    let mut later = info.clone();
    apply_sample(&mut later, 650, 2400);
    assert_eq!((later.cycle_total_tx, later.cycle_total_rx), (1050, 2100));
}

#[test]
fn reboot_scenario() {
    let before = stored("A", 1000, 3000, 400, 500);
    let info = recover(&monthly(), &before.encode(), "B", 50, 60);
    assert_eq!(info.offset_tx, 1000);
    assert_eq!(info.offset_rx, 3000);
    assert_eq!(info.boot_id, "B");
    assert_eq!((info.cycle_total_tx, info.cycle_total_rx), (1000, 3000));
    let mut next = info.clone();
    apply_sample(&mut next, 80, 90);
    assert_eq!(next.cycle_total_tx, 1080);
    assert_eq!(next.cycle_total_rx, 3090);
    assert_eq!(cumulative_total(80, info.offset_tx), 1080);
}

#[test]
fn host_without_boot_identifier_never_counts_as_rebooted() {
    let before = stored("A", 1000, 2000, 400, -300);
    let info = recover(&monthly(), &before.encode(), "", 650, 2400);
    assert_eq!(info, stored("", 1000, 2000, 400, -300));
    let marked = check_boot(stored("A", 1, 2, 3, 4), "");
    assert_eq!(marked, stored("", 1, 2, 3, 4));
}

#[test]
fn boot_check_marks_the_offsets() {
    let marked = check_boot(stored("A", 1, 2, 3, 4), "B");
    assert_eq!(marked, stored("B", 1, 2, OFFSET_AFTER_REBOOT, OFFSET_AFTER_REBOOT));
    let same = check_boot(stored("A", 1, 2, 3, 4), "A");
    assert_eq!(same, stored("A", 1, 2, 3, 4));
    let first = check_boot(stored("", 1, 2, 3, 4), "A");
    assert_eq!(first, stored("A", 1, 2, OFFSET_AFTER_REBOOT, OFFSET_AFTER_REBOOT));
}

#[test]
fn config_change_scenario() {
    let before = stored("A", 1000, 2000, 400, -300);
    let info = recover(&weekly(), &before.encode(), "A", 650, 2400);
    assert_eq!(info.config, weekly());
    assert_eq!((info.cycle_total_tx, info.cycle_total_rx), (0, 0));
    assert_eq!(info.next_reset_timestamp, NEXT_MONDAY);
    assert_eq!(
        Ok(info.next_reset_timestamp),
        calculate_next_reset_timestamp(&weekly(), Moment::utc(NOW))
    );
    // The new cycle starts from the present reading of the counters.
    assert_eq!((info.offset_tx, info.offset_rx), (-650, -2400));
    let mut later = info.clone();
    apply_sample(&mut later, 700, 2500);
    assert_eq!((later.cycle_total_tx, later.cycle_total_rx), (50, 100));
}

#[test]
fn config_change_does_not_depend_on_the_stored_end_of_cycle() {
    for stored_end in [i64::MIN, 0, NOW - 1, NOW, NOW + 1, END_OF_FEBRUARY, i64::MAX] {
        let mut before = stored("A", 1000, 2000, 400, -300);
        before.next_reset_timestamp = stored_end;
        let info = recover(&weekly(), &before.encode(), "A", 650, 2400);
        assert_eq!(info.next_reset_timestamp, NEXT_MONDAY);
        assert_eq!((info.cycle_total_tx, info.cycle_total_rx), (0, 0));
    }
}

#[test]
fn any_difference_in_the_configuration_is_a_change() {
    let before = stored("A", 1000, 2000, 400, -300);
    let mut other = monthly();
    other.network_interval = 11;
    let checked = check_config(before.clone(), &other, Moment::utc(NOW)).unwrap();
    assert_eq!(checked.config, other);
    assert_eq!((checked.cycle_total_tx, checked.cycle_total_rx), (0, 0));
    assert_eq!((checked.offset_tx, checked.offset_rx), (OFFSET_STALE, OFFSET_STALE));
    assert_eq!(checked.boot_id, "A");
    let unchanged = check_config(before.clone(), &monthly(), Moment::utc(NOW)).unwrap();
    assert_eq!(unchanged, before);
}

#[test]
fn ended_cycle_rolls_over() {
    let mut before = stored("A", 1000, 2000, 400, -300);
    before.next_reset_timestamp = NOW;
    let info = recover(&monthly(), &before.encode(), "A", 650, 2400);
    assert_eq!(info, stored("A", 0, 0, -650, -2400));
    let rolled = roll_over(before.clone(), &monthly(), Moment::utc(NOW)).unwrap();
    assert_eq!(rolled, stored("A", 0, 0, OFFSET_STALE, OFFSET_STALE));
    let running = roll_over(before.clone(), &monthly(), Moment::utc(NOW - 1)).unwrap();
    assert_eq!(running, before);
}

#[test]
fn reboot_after_the_end_of_the_cycle_starts_from_zero() {
    let mut before = stored("A", 1000, 2000, 400, -300);
    before.next_reset_timestamp = NOW - 5;
    let info = recover(&monthly(), &before.encode(), "B", 50, 60);
    assert_eq!(info, stored("B", 0, 0, 0, 0));
}

#[test]
fn record_without_offsets_is_stitched_to_the_counters() {
    let mut text = String::new();
    for line in stored("A", 1000, 2000, 0, 0).encode().lines() {
        if !line.starts_with("offset_") {
            text.push_str(line);
            text.push('\n');
        }
    }
    let info = recover(&monthly(), &text, "A", 650, 2400);
    assert_eq!(info, stored("A", 1000, 2000, 350, -400));
}

#[test]
fn offset_continuity() {
    for (total, raw) in [(1000u64, 650u64), (0, 650), (650, 650), (5, 1 << 40), (1 << 50, 3)] {
        let before = stored("A", total, total, OFFSET_STALE, OFFSET_STALE);
        let info = recover(&monthly(), &before.encode(), "A", raw, raw);
        assert_eq!(i128::from(raw) + i128::from(info.offset_tx), i128::from(info.cycle_total_tx));
        assert_eq!(i128::from(raw) + i128::from(info.offset_rx), i128::from(info.cycle_total_rx));
        assert_eq!(info.cycle_total_tx, total);
        // What was written is what the same counters show.
        let written = NetworkInfo::decode(&info.encode()).unwrap();
        let mut sampled = written.clone();
        apply_sample(&mut sampled, raw, raw);
        assert_eq!(sampled, written);
    }
}

#[test]
fn unreadable_file_gives_a_fresh_record() {
    let info = recover(&monthly(), "not a record", "A", 500, 700);
    assert_eq!(info, stored("A", 0, 0, 0, 0));
    let info = recover(&monthly(), "boot_id=A\ncycle_total_tx=12\n", "A", 500, 700);
    assert_eq!(info, stored("A", 0, 0, 0, 0));
}

#[test]
fn old_format_seeds_the_totals() {
    let text = "source_tx=1500\nsource_rx=2500\n";
    let loaded = load_record(&monthly(), text, Moment::utc(NOW), "A").unwrap();
    assert_eq!(loaded, stored("A", 1500, 2500, OFFSET_FRESH, OFFSET_FRESH));
    let info = recover(&monthly(), text, "A", 500, 700);
    assert_eq!(info, stored("A", 1500, 2500, 1000, 1800));
    // One total of zero is enough for an offset that is computed.
    let info = recover(&monthly(), "source_tx=0\nsource_rx=2500\n", "A", 500, 700);
    assert_eq!(info, stored("A", 0, 2500, -500, 1800));
    let info = recover(&monthly(), "source_tx=0\nsource_rx=0\n", "A", 500, 700);
    assert_eq!(info, stored("A", 0, 0, 0, 0));
}

#[test]
fn resolve_offsets_by_mark() {
    let stale = resolve_offsets(stored("A", 1000, 2000, OFFSET_STALE, 7), 600, 2500);
    assert_eq!(stale, stored("A", 1000, 2000, 400, -500));
    let reboot = resolve_offsets(stored("A", 1000, 2000, OFFSET_AFTER_REBOOT, 7), 600, 2500);
    assert_eq!(reboot, stored("A", 1000, 2000, 1000, 2000));
    let fresh = resolve_offsets(stored("A", 0, 0, OFFSET_FRESH, 7), 600, 2500);
    assert_eq!(fresh, stored("A", 0, 0, 0, 0));
    let seeded = resolve_offsets(stored("A", 0, 1, OFFSET_FRESH, 7), 600, 2500);
    assert_eq!(seeded, stored("A", 0, 1, -600, -2499));
    // The offset of sent bytes decides: a mark among received bytes alone
    // is left as it is.
    let valid = resolve_offsets(stored("A", 1000, 2000, 5, OFFSET_STALE), 600, 2500);
    assert_eq!(valid, stored("A", 1000, 2000, 5, OFFSET_STALE));
}

#[test]
fn recovery_fails_where_no_end_of_cycle_can_be_computed() {
    let mut bad = monthly();
    bad.traffic_reset_day = String::from("32");
    let now = Moment::utc(NOW);
    assert_eq!(
        initialize_network_state_and_offset(&bad, "", now, "A", 0, 0),
        Err(SchedulerError::InvalidSpec)
    );
    assert_eq!(
        initialize_network_state_and_offset(&bad, "garbage", now, "A", 0, 0),
        Err(SchedulerError::InvalidSpec)
    );
    let before = stored("A", 1000, 2000, 400, -300);
    assert_eq!(
        initialize_network_state_and_offset(&bad, &before.encode(), now, "A", 0, 0),
        Err(SchedulerError::InvalidSpec)
    );
    let mut yearly = monthly();
    yearly.traffic_period = TrafficPeriod::Year;
    yearly.traffic_reset_day = String::from("02/30");
    assert_eq!(new_record(&yearly, now, "A", 0, 0), Err(SchedulerError::InvalidDate));
    assert_eq!(restart_cycle(before, &yearly, now), Err(SchedulerError::InvalidDate));
}

#[test]
fn stored_record_with_unusable_reset_day_is_kept_while_its_cycle_runs() {
    // Nothing has to be computed as long as configuration and cycle stand.
    let mut config = monthly();
    config.traffic_reset_day = String::from("32");
    let mut before = stored("A", 1000, 2000, 400, -300);
    before.config = config.clone();
    let info = recover(&config, &before.encode(), "A", 650, 2400);
    assert_eq!(info, before);
}

#[test]
fn recovered_record_is_current() {
    let texts = [
        String::new(),
        String::from("garbage"),
        stored("A", 1, 2, 3, 4).encode(),
        stored("Z", 1, 2, OFFSET_STALE, OFFSET_STALE).encode(),
        stored("A", 1, 2, OFFSET_FRESH, 0).encode(),
    ];
    for text in &texts {
        for config in [monthly(), weekly()] {
            let info = recover(&config, text, "A", 10, 20);
            assert_eq!(info.config, config);
            assert_eq!(info.boot_id, "A");
            assert!(info.next_reset_timestamp > NOW);
            assert!(info.offset_tx > OFFSET_FRESH);
        }
    }
}
