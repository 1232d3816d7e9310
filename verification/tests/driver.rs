use komari_monitor::config::{NetworkConfig, TrafficPeriod};
use komari_monitor::driver::{
    apply_sample, network_saver, step, DriverAction, DriverEvent, DriverState, PersistenceError,
    RecoveryError,
};
use komari_monitor::scheduler::SchedulerError;
use komari_monitor::record::NetworkInfo;

fn config(disabled: bool) -> NetworkConfig {
    NetworkConfig {
        disable_network_statistics: disabled,
        network_interval: 10,
        network_save_path: String::from("/etc/komari-network.conf"),
        traffic_period: TrafficPeriod::Week,
        traffic_reset_day: String::from("mon"),
    }
}

fn record() -> NetworkInfo {
    NetworkInfo {
        config: config(false),
        boot_id: String::from("A"),
        cycle_total_tx: 1000,
        cycle_total_rx: 2000,
        next_reset_timestamp: 5000,
        offset_tx: 1000,
        offset_rx: -50,
    }
}

#[test]
fn disabled_accounting_stops_at_once() {
    let (state, action) = network_saver(&config(true));
    assert!(matches!(state, DriverState::Stopped));
    assert!(matches!(action, DriverAction::Stop));
    let (state, action) = step(state, DriverEvent::Recovered(record()));
    assert!(matches!(state, DriverState::Stopped));
    assert!(matches!(action, DriverAction::Stop));
}

#[test]
fn enabled_accounting_begins_with_a_recovery() {
    let (state, action) = network_saver(&config(false));
    assert!(matches!(state, DriverState::Recovering));
    assert!(matches!(action, DriverAction::Recover));
}

#[test]
fn recovered_record_starts_the_sampling() {
    let (state, action) = step(DriverState::Recovering, DriverEvent::Recovered(record()));
    assert!(matches!(action, DriverAction::Sample));
    match state {
        DriverState::Sampling(info) => assert_eq!(info, record()),
        other => panic!("{:?}", other),
    }
}

#[test]
fn failed_recovery_stops_the_loop() {
    for error in [
        RecoveryError::Persistence(PersistenceError::Open),
        RecoveryError::Persistence(PersistenceError::Write),
        RecoveryError::Scheduler(SchedulerError::InvalidSpec),
        RecoveryError::Scheduler(SchedulerError::InvalidDate),
    ] {
        let (state, action) = step(DriverState::Recovering, DriverEvent::RecoveryFailed(error));
        assert!(matches!(state, DriverState::Stopped));
        assert!(matches!(action, DriverAction::Stop));
    }
}

fn expected_after_sample() -> NetworkInfo {
    let mut expected = record();
    expected.cycle_total_tx = 1080;
    expected.cycle_total_rx = 20;
    expected
}

#[test]
fn sample_within_the_cycle_is_written() {
    let event = DriverEvent::Sampled { now: 4999, raw_tx: 80, raw_rx: 70 };
    let (state, action) = step(DriverState::Sampling(record()), event);
    let expected = expected_after_sample();
    match action {
        DriverAction::Save(text) => {
            assert_eq!(text, expected.encode());
            assert_eq!(NetworkInfo::decode(&text), Ok(expected.clone()));
        }
        other => panic!("{:?}", other),
    }
    match state {
        DriverState::Saving(info) => assert_eq!(info, expected),
        other => panic!("{:?}", other),
    }
}

#[test]
fn after_the_writing_comes_the_next_sample() {
    let (state, action) = step(DriverState::Saving(expected_after_sample()), DriverEvent::Saved);
    assert!(matches!(action, DriverAction::Sample));
    match state {
        DriverState::Sampling(info) => assert_eq!(info, expected_after_sample()),
        other => panic!("{:?}", other),
    }
}

#[test]
fn failed_writing_does_not_end_the_loop() {
    let failed = DriverEvent::SaveFailed(PersistenceError::Write);
    let (state, action) = step(DriverState::Saving(expected_after_sample()), failed);
    assert!(matches!(action, DriverAction::Sample));
    // The totals that could not be written are in the next record again.
    let event = DriverEvent::Sampled { now: 4999, raw_tx: 85, raw_rx: 70 };
    let (state, action) = step(state, event);
    let mut expected = expected_after_sample();
    expected.cycle_total_tx = 1085;
    match action {
        DriverAction::Save(text) => assert_eq!(text, expected.encode()),
        other => panic!("{:?}", other),
    }
    assert!(matches!(state, DriverState::Saving(_)));
}

#[test]
fn sample_at_the_end_of_the_cycle_starts_a_recovery_without_writing() {
    for now in [5000, 5001, i64::MAX] {
        let event = DriverEvent::Sampled { now, raw_tx: 80, raw_rx: 70 };
        let (state, action) = step(DriverState::Sampling(record()), event);
        assert!(matches!(state, DriverState::Recovering));
        assert!(matches!(action, DriverAction::Recover));
    }
}

#[test]
fn totals_are_floored_at_zero() {
    let mut info = record();
    apply_sample(&mut info, 0, 49);
    assert_eq!((info.cycle_total_tx, info.cycle_total_rx), (1000, 0));
    apply_sample(&mut info, 5, 51);
    assert_eq!((info.cycle_total_tx, info.cycle_total_rx), (1005, 1));
    assert_eq!((info.offset_tx, info.offset_rx), (1000, -50));
    assert_eq!(info.next_reset_timestamp, 5000);
}

#[test]
fn events_that_answer_no_step_change_nothing() {
    let event = DriverEvent::Sampled { now: 1, raw_tx: 2, raw_rx: 3 };
    let (state, action) = step(DriverState::Recovering, event);
    assert!(matches!(state, DriverState::Recovering));
    assert!(matches!(action, DriverAction::Recover));
    let (state, action) = step(DriverState::Recovering, DriverEvent::Saved);
    assert!(matches!(state, DriverState::Recovering));
    assert!(matches!(action, DriverAction::Recover));

    let mut other = record();
    other.cycle_total_tx = 1;
    let (state, action) = step(DriverState::Sampling(record()), DriverEvent::Recovered(other));
    assert!(matches!(action, DriverAction::Sample));
    match state {
        DriverState::Sampling(info) => assert_eq!(info, record()),
        other => panic!("{:?}", other),
    }
    let failed = DriverEvent::RecoveryFailed(RecoveryError::Persistence(PersistenceError::Read));
    let (state, action) = step(DriverState::Sampling(record()), failed);
    assert!(matches!(action, DriverAction::Sample));
    assert!(matches!(state, DriverState::Sampling(_)));

    let event = DriverEvent::Sampled { now: 1, raw_tx: 2, raw_rx: 3 };
    let (state, action) = step(DriverState::Saving(record()), event);
    match action {
        DriverAction::Save(text) => assert_eq!(text, record().encode()),
        other => panic!("{:?}", other),
    }
    match state {
        DriverState::Saving(info) => assert_eq!(info, record()),
        other => panic!("{:?}", other),
    }

    let (state, action) = step(DriverState::Stopped, DriverEvent::Saved);
    assert!(matches!(state, DriverState::Stopped));
    assert!(matches!(action, DriverAction::Stop));
}

#[test]
fn a_whole_cycle() {
    let (mut state, mut action) = network_saver(&config(false));
    assert!(matches!(action, DriverAction::Recover));
    (state, action) = step(state, DriverEvent::Recovered(record()));
    let mut writes = 0;
    let mut last_total = 0;
    for (now, raw) in [(4000, 10u64), (4500, 60), (4999, 90), (5000, 95)] {
        assert!(matches!(action, DriverAction::Sample));
        (state, action) = step(state, DriverEvent::Sampled { now, raw_tx: raw, raw_rx: raw });
        if let DriverAction::Save(text) = &action {
            writes += 1;
            let written = NetworkInfo::decode(text).unwrap();
            assert_eq!(written.cycle_total_tx, 1000 + raw);
            assert_eq!(written.cycle_total_rx, raw.saturating_sub(50));
            assert!(written.cycle_total_tx >= last_total);
            last_total = written.cycle_total_tx;
            (state, action) = step(state, DriverEvent::Saved);
        }
    }
    assert_eq!(writes, 3);
    assert!(matches!(state, DriverState::Recovering));
    assert!(matches!(action, DriverAction::Recover));
}
