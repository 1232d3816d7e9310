use komari_monitor::offset::{
    carry_offset, classify_offset, cumulative_total, stitch_offset, OffsetState, Reason,
    TrafficOffset, MIN_VALID_OFFSET, OFFSET_AFTER_REBOOT, OFFSET_FRESH, OFFSET_STALE,
};

#[test]
fn marks_are_told_from_offsets() {
    assert_eq!(classify_offset(OFFSET_STALE), OffsetState::NeedsRecompute(Reason::NewCycle));
    assert_eq!(classify_offset(OFFSET_AFTER_REBOOT), OffsetState::NeedsRecompute(Reason::Reboot));
    assert_eq!(classify_offset(OFFSET_FRESH), OffsetState::NeedsRecompute(Reason::FreshFile));
    assert_eq!(classify_offset(MIN_VALID_OFFSET), OffsetState::Valid(MIN_VALID_OFFSET));
    assert_eq!(classify_offset(0), OffsetState::Valid(0));
    assert_eq!(classify_offset(-1), OffsetState::Valid(-1));
    assert_eq!(classify_offset(i64::MAX), OffsetState::Valid(i64::MAX));
    assert_eq!(MIN_VALID_OFFSET, i64::MIN + 3);
}

#[test]
fn stitched_offset_is_the_difference() {
    assert_eq!(stitch_offset(1000, 50), 950);
    assert_eq!(stitch_offset(0, 50), -50);
    assert_eq!(stitch_offset(0, 0), 0);
    assert_eq!(stitch_offset(50, 50), 0);
    assert_eq!(stitch_offset(i64::MAX as u64, 0), i64::MAX);
}

#[test]
fn stitched_offset_stays_clear_of_the_marks() {
    assert_eq!(stitch_offset(u64::MAX, 0), i64::MAX);
    assert_eq!(stitch_offset(0, u64::MAX), MIN_VALID_OFFSET);
    assert_eq!(stitch_offset(0, 1 << 63), MIN_VALID_OFFSET);
    assert_eq!(stitch_offset(0, (1 << 63) - 1), MIN_VALID_OFFSET);
    assert_eq!(stitch_offset(0, (1 << 63) - 3), MIN_VALID_OFFSET);
    assert_eq!(stitch_offset(0, (1 << 63) - 4), MIN_VALID_OFFSET + 1);
}

#[test]
fn carried_offset_is_the_total() {
    assert_eq!(carry_offset(0), 0);
    assert_eq!(carry_offset(1000), 1000);
    assert_eq!(carry_offset(i64::MAX as u64), i64::MAX);
    assert_eq!(carry_offset(u64::MAX), i64::MAX);
}

#[test]
fn cumulative_total_is_the_sum_within_bounds() {
    assert_eq!(cumulative_total(80, 1000), 1080);
    assert_eq!(cumulative_total(80, -30), 50);
    assert_eq!(cumulative_total(80, -80), 0);
    assert_eq!(cumulative_total(80, -81), 0);
    assert_eq!(cumulative_total(0, i64::MIN), 0);
    assert_eq!(cumulative_total(u64::MAX, 0), u64::MAX);
    assert_eq!(cumulative_total(u64::MAX, 1), u64::MAX);
    assert_eq!(cumulative_total(u64::MAX, -1), u64::MAX - 1);
    assert_eq!(cumulative_total(u64::MAX, i64::MIN), (1 << 63) - 1);
    assert_eq!(cumulative_total(1 << 63, i64::MAX), u64::MAX);
}

#[test]
fn stitched_offset_shows_the_total_again() {
    for (total, raw) in [(0u64, 0u64), (1000, 50), (50, 1000), (0, 77), (u64::MAX, u64::MAX - 5)] {
        assert_eq!(cumulative_total(raw, stitch_offset(total, raw)), total);
    }
}

#[test]
fn cumulative_total_grows_with_the_counter() {
    for offset in [-1000i64, -1, 0, 1, 1000] {
        let mut last = 0;
        for raw in [0u64, 1, 999, 1000, 1001, 50_000] {
            let total = cumulative_total(raw, offset);
            assert!(total >= last);
            last = total;
        }
    }
}

#[test]
fn published_offsets_are_read_back_as_a_pair() {
    let mut cell = TrafficOffset::new();
    assert_eq!(cell.current_offsets(), (0, 0));
    assert_eq!(cell.totals(7, 9), (7, 9));
    cell.update_traffic_offset(1000, -4);
    assert_eq!(cell.current_offsets(), (1000, -4));
    assert_eq!(cell.totals(80, 3), (1080, 0));
    cell.update_traffic_offset(-1, 2);
    assert_eq!(cell.current_offsets(), (-1, 2));
}
