//! Bringing the record up to date when a cycle starts.
//!
//! At the start of the agent, and again whenever a cycle has ended, the
//! record is loaded or made anew, checked against the configuration, the
//! clock and the boot identifier of the host, and given offsets that fit
//! the present reading of the counters. The steps are functions of their
//! own; [`initialize_network_state_and_offset`] makes them in order.

use crate::config::{NetworkConfig, NetworkConfigView};
use crate::driver::sampled;
use crate::migration::{legacy_totals, parse_old_format_for_migration};
use crate::offset::{
    carried_offset, carry_offset, classify_offset, offset_state, stitch_offset, stitched_offset,
    OffsetState, Reason, MIN_VALID_OFFSET, OFFSET_AFTER_REBOOT, OFFSET_FRESH, OFFSET_STALE,
};
use crate::codec::decoded;
use crate::record::{NetworkInfo, NetworkInfoView};
use crate::scheduler::{
    calculate_next_reset_timestamp, lemma_next_reset_is_later, next_reset, Moment, SchedulerError,
};
use vstd::prelude::*;
use vstd::string::StringExecFns;

verus! {

/// A record made anew: the given totals, the end of the cycle that `now`
/// lies in, and offsets marked as fresh.
pub open spec fn fresh_record(
    config: NetworkConfigView,
    now: Moment,
    host_boot_id: Seq<char>,
    totals: (u64, u64),
) -> Result<NetworkInfoView, SchedulerError> {
    match next_reset(config.traffic_period, config.traffic_reset_day, now) {
        Ok(reset) => Ok(
            NetworkInfoView {
                config,
                boot_id: host_boot_id,
                cycle_total_tx: totals.0,
                cycle_total_rx: totals.1,
                next_reset_timestamp: reset as i64,
                offset_tx: OFFSET_FRESH,
                offset_rx: OFFSET_FRESH,
            },
        ),
        Err(e) => Err(e),
    }
}

/// The record to start from, given what the state file holds.
///
/// - An empty file: a fresh record with totals of zero.
/// - A record: that record.
/// - Anything else: a fresh record with the totals that the text holds in
///   the older form, or zero.
pub open spec fn loaded(
    config: NetworkConfigView,
    text: Seq<char>,
    now: Moment,
    host_boot_id: Seq<char>,
) -> Result<NetworkInfoView, SchedulerError> {
    if text.len() == 0 {
        fresh_record(config, now, host_boot_id, (0, 0))
    } else {
        match decoded(text) {
            Ok(info) => Ok(info),
            Err(_) => fresh_record(
                config,
                now,
                host_boot_id,
                match legacy_totals(text) {
                    Some(totals) => totals,
                    None => (0, 0),
                },
            ),
        }
    }
}

/// A record whose cycle starts at `now` under `config`: totals of zero, the
/// end of the new cycle, offsets marked as stale.
pub open spec fn restarted(info: NetworkInfoView, config: NetworkConfigView, now: Moment) -> Result<
    NetworkInfoView,
    SchedulerError,
> {
    match next_reset(config.traffic_period, config.traffic_reset_day, now) {
        Ok(reset) => Ok(
            NetworkInfoView {
                config,
                cycle_total_tx: 0,
                cycle_total_rx: 0,
                next_reset_timestamp: reset as i64,
                offset_tx: OFFSET_STALE,
                offset_rx: OFFSET_STALE,
                ..info
            },
        ),
        Err(e) => Err(e),
    }
}

/// The record after the check of the configuration: a record written under
/// another configuration starts a new cycle under the present one.
pub open spec fn after_config_check(
    info: NetworkInfoView,
    config: NetworkConfigView,
    now: Moment,
) -> Result<NetworkInfoView, SchedulerError> {
    if info.config == config {
        Ok(info)
    } else {
        restarted(info, config, now)
    }
}

/// The record after the check of the clock: a record whose cycle has ended
/// starts a new one.
pub open spec fn after_rollover(
    info: NetworkInfoView,
    config: NetworkConfigView,
    now: Moment,
) -> Result<NetworkInfoView, SchedulerError> {
    if now.unix_seconds >= info.next_reset_timestamp {
        restarted(info, config, now)
    } else {
        Ok(info)
    }
}

/// Whether the host was restarted since the record was written: it gives a
/// boot identifier, and another one than the record holds.
pub open spec fn rebooted(info: NetworkInfoView, host_boot_id: Seq<char>) -> bool {
    host_boot_id.len() > 0 && info.boot_id != host_boot_id
}

/// The record after the check of the boot identifier: after a restart of
/// the host the offsets are marked; the identifier of the host is taken
/// over in any case.
pub open spec fn after_boot_check(
    info: NetworkInfoView,
    host_boot_id: Seq<char>,
) -> NetworkInfoView {
    NetworkInfoView {
        boot_id: host_boot_id,
        offset_tx: if rebooted(info, host_boot_id) {
            OFFSET_AFTER_REBOOT
        } else {
            info.offset_tx
        },
        offset_rx: if rebooted(info, host_boot_id) {
            OFFSET_AFTER_REBOOT
        } else {
            info.offset_rx
        },
        ..info
    }
}

/// The record with offsets that are no marks, for counters that read
/// `raw_tx` and `raw_rx`. The offset of sent bytes says which case holds.
///
/// - A valid offset: both offsets stay. The agent was restarted, the host
///   was not: the counters went on, and so does the offset.
/// - Stale: each offset makes its counter show the total of the record.
/// - After a restart of the host: the counters began at zero, so each
///   offset is the total of the record.
/// - Fresh: zero where both totals are zero, else as for stale.
pub open spec fn resolved(info: NetworkInfoView, raw_tx: u64, raw_rx: u64) -> NetworkInfoView {
    match offset_state(info.offset_tx) {
        OffsetState::Valid(_) => info,
        OffsetState::NeedsRecompute(Reason::Reboot) => NetworkInfoView {
            offset_tx: carried_offset(info.cycle_total_tx),
            offset_rx: carried_offset(info.cycle_total_rx),
            ..info
        },
        OffsetState::NeedsRecompute(Reason::FreshFile) => if info.cycle_total_tx == 0
            && info.cycle_total_rx == 0 {
            NetworkInfoView { offset_tx: 0, offset_rx: 0, ..info }
        } else {
            NetworkInfoView {
                offset_tx: stitched_offset(info.cycle_total_tx, raw_tx),
                offset_rx: stitched_offset(info.cycle_total_rx, raw_rx),
                ..info
            }
        },
        OffsetState::NeedsRecompute(Reason::NewCycle) => NetworkInfoView {
            offset_tx: stitched_offset(info.cycle_total_tx, raw_tx),
            offset_rx: stitched_offset(info.cycle_total_rx, raw_rx),
            ..info
        },
    }
}

/// The record to begin a cycle with: loaded, then checked against the
/// configuration, the clock and the boot identifier, then given offsets.
pub open spec fn recovered(
    config: NetworkConfigView,
    text: Seq<char>,
    now: Moment,
    host_boot_id: Seq<char>,
    raw_tx: u64,
    raw_rx: u64,
) -> Result<NetworkInfoView, SchedulerError> {
    match loaded(config, text, now, host_boot_id) {
        Err(e) => Err(e),
        Ok(found) => match after_config_check(found, config, now) {
            Err(e) => Err(e),
            Ok(checked) => match after_rollover(checked, config, now) {
                Err(e) => Err(e),
                Ok(current) => Ok(
                    resolved(after_boot_check(current, host_boot_id), raw_tx, raw_rx),
                ),
            },
        },
    }
}

/// An executable result says the same as a specified one.
pub open spec fn same_record(
    r: Result<NetworkInfo, SchedulerError>,
    s: Result<NetworkInfoView, SchedulerError>,
) -> bool {
    match r {
        Ok(info) => s == Ok::<NetworkInfoView, SchedulerError>(info@),
        Err(e) => s == Err::<NetworkInfoView, SchedulerError>(e),
    }
}

/// Makes a record anew.
pub fn new_record(
    config: &NetworkConfig,
    now: Moment,
    host_boot_id: &str,
    cycle_total_tx: u64,
    cycle_total_rx: u64,
) -> (r: Result<NetworkInfo, SchedulerError>)
    ensures
        same_record(
            r,
            fresh_record(config@, now, host_boot_id@, (cycle_total_tx, cycle_total_rx)),
        ),
{
    let next_reset_timestamp = calculate_next_reset_timestamp(config, now)?;
    Ok(
        NetworkInfo {
            config: config.clone(),
            boot_id: String::from_str(host_boot_id),
            cycle_total_tx,
            cycle_total_rx,
            next_reset_timestamp,
            offset_tx: OFFSET_FRESH,
            offset_rx: OFFSET_FRESH,
        },
    )
}

/// Gives the record to start from, for the content of the state file.
pub fn load_record(config: &NetworkConfig, raw_data: &str, now: Moment, host_boot_id: &str) -> (r:
    Result<NetworkInfo, SchedulerError>)
    ensures
        same_record(r, loaded(config@, raw_data@, now, host_boot_id@)),
{
    if raw_data.is_empty() {
        return new_record(config, now, host_boot_id, 0, 0);
    }
    match NetworkInfo::decode(raw_data) {
        Ok(info) => Ok(info),
        Err(_) => {
            let (tx, rx) = match parse_old_format_for_migration(raw_data) {
                Some(totals) => totals,
                None => (0, 0),
            };
            new_record(config, now, host_boot_id, tx, rx)
        },
    }
}

/// Starts a new cycle at `now` under `config`.
pub fn restart_cycle(info: NetworkInfo, config: &NetworkConfig, now: Moment) -> (r: Result<
    NetworkInfo,
    SchedulerError,
>)
    ensures
        same_record(r, restarted(info@, config@, now)),
{
    let next_reset_timestamp = calculate_next_reset_timestamp(config, now)?;
    Ok(
        NetworkInfo {
            config: config.clone(),
            boot_id: info.boot_id,
            cycle_total_tx: 0,
            cycle_total_rx: 0,
            next_reset_timestamp,
            offset_tx: OFFSET_STALE,
            offset_rx: OFFSET_STALE,
        },
    )
}

/// Starts a new cycle if the record was written under another
/// configuration.
pub fn check_config(info: NetworkInfo, config: &NetworkConfig, now: Moment) -> (r: Result<
    NetworkInfo,
    SchedulerError,
>)
    ensures
        same_record(r, after_config_check(info@, config@, now)),
{
    if info.config == *config {
        Ok(info)
    } else {
        restart_cycle(info, config, now)
    }
}

/// Starts a new cycle if the cycle of the record has ended.
pub fn roll_over(info: NetworkInfo, config: &NetworkConfig, now: Moment) -> (r: Result<
    NetworkInfo,
    SchedulerError,
>)
    ensures
        same_record(r, after_rollover(info@, config@, now)),
{
    if now.unix_seconds >= info.next_reset_timestamp {
        restart_cycle(info, config, now)
    } else {
        Ok(info)
    }
}

/// Marks the offsets if the host was restarted, and takes over its boot
/// identifier.
pub fn check_boot(info: NetworkInfo, host_boot_id: &str) -> (r: NetworkInfo)
    ensures
        r@ == after_boot_check(info@, host_boot_id@),
{
    let host = String::from_str(host_boot_id);
    let rebooted = !host_boot_id.is_empty() && info.boot_id != host;
    NetworkInfo {
        config: info.config,
        boot_id: host,
        cycle_total_tx: info.cycle_total_tx,
        cycle_total_rx: info.cycle_total_rx,
        next_reset_timestamp: info.next_reset_timestamp,
        offset_tx: if rebooted {
            OFFSET_AFTER_REBOOT
        } else {
            info.offset_tx
        },
        offset_rx: if rebooted {
            OFFSET_AFTER_REBOOT
        } else {
            info.offset_rx
        },
    }
}

/// Replaces marks by offsets that fit the counters `raw_tx` and `raw_rx`.
pub fn resolve_offsets(info: NetworkInfo, raw_tx: u64, raw_rx: u64) -> (r: NetworkInfo)
    ensures
        r@ == resolved(info@, raw_tx, raw_rx),
{
    let mut info = info;
    match classify_offset(info.offset_tx) {
        OffsetState::Valid(_) => {},
        OffsetState::NeedsRecompute(Reason::Reboot) => {
            info.offset_tx = carry_offset(info.cycle_total_tx);
            info.offset_rx = carry_offset(info.cycle_total_rx);
        },
        OffsetState::NeedsRecompute(Reason::FreshFile) => {
            if info.cycle_total_tx == 0 && info.cycle_total_rx == 0 {
                info.offset_tx = 0;
                info.offset_rx = 0;
            } else {
                info.offset_tx = stitch_offset(info.cycle_total_tx, raw_tx);
                info.offset_rx = stitch_offset(info.cycle_total_rx, raw_rx);
            }
        },
        OffsetState::NeedsRecompute(Reason::NewCycle) => {
            info.offset_tx = stitch_offset(info.cycle_total_tx, raw_tx);
            info.offset_rx = stitch_offset(info.cycle_total_rx, raw_rx);
        },
    }
    info
}

/// Gives the record to begin a cycle with.
///
/// `raw_data` is the content of the state file, `host_boot_id` the boot
/// identifier of the host (empty where it gives none), `raw_tx` and
/// `raw_rx` the present reading of the counters. The result is what to
/// publish and to write back. It fails only where the end of a cycle had to
/// be computed and could not be.
pub fn initialize_network_state_and_offset(
    config: &NetworkConfig,
    raw_data: &str,
    now: Moment,
    host_boot_id: &str,
    raw_tx: u64,
    raw_rx: u64,
) -> (r: Result<NetworkInfo, SchedulerError>)
    ensures
        same_record(r, recovered(config@, raw_data@, now, host_boot_id@, raw_tx, raw_rx)),
        r matches Ok(info) ==> {
            &&& info.config@ == config@
            &&& info.boot_id@ == host_boot_id@
            &&& now.unix_seconds < info.next_reset_timestamp
            &&& offset_state(info.offset_tx) is Valid
        },
{
    proof {
        lemma_recovered_is_current(config@, raw_data@, now, host_boot_id@, raw_tx, raw_rx);
    }
    let found = load_record(config, raw_data, now, host_boot_id)?;
    let checked = check_config(found, config, now)?;
    let current = roll_over(checked, config, now)?;
    Ok(resolve_offsets(check_boot(current, host_boot_id), raw_tx, raw_rx))
}

/// Offsets that were resolved are no marks.
pub proof fn lemma_resolved_is_valid(info: NetworkInfoView, raw_tx: u64, raw_rx: u64)
    ensures
        offset_state(resolved(info, raw_tx, raw_rx).offset_tx) is Valid,
{
}

/// The record that a cycle begins with is written under the present
/// configuration, its cycle ends after `now`, and its offset is no mark.
pub proof fn lemma_recovered_is_current(
    config: NetworkConfigView,
    text: Seq<char>,
    now: Moment,
    host_boot_id: Seq<char>,
    raw_tx: u64,
    raw_rx: u64,
)
    ensures
        recovered(config, text, now, host_boot_id, raw_tx, raw_rx) matches Ok(info) ==> {
            &&& info.config == config
            &&& now.unix_seconds < info.next_reset_timestamp
            &&& offset_state(info.offset_tx) is Valid
            &&& info.boot_id == host_boot_id
        },
{
    lemma_next_reset_is_later(config.traffic_period, config.traffic_reset_day, now);
}

/// The offsets of the record are marks that are resolved by stitching: the
/// mark is stale, or it is fresh and a total is not zero.
pub open spec fn is_stitched(info: NetworkInfoView) -> bool {
    ||| offset_state(info.offset_tx) == OffsetState::NeedsRecompute(Reason::NewCycle)
    ||| offset_state(info.offset_tx) == OffsetState::NeedsRecompute(Reason::FreshFile) && (
    info.cycle_total_tx != 0 || info.cycle_total_rx != 0)
}

/// Where marks were resolved, the counters they were resolved for show the
/// totals of the record: nothing is lost and nothing counted twice across
/// the start of a cycle. This holds where the offsets are stitched, and
/// elsewhere if the counters read zero, as they do after a restart of the
/// host; the totals and the counters must be such that their difference is
/// an offset.
pub proof fn lemma_resolved_continuity(info: NetworkInfoView, raw_tx: u64, raw_rx: u64)
    requires
        offset_state(info.offset_tx) is NeedsRecompute,
        is_stitched(info) || (raw_tx == 0 && raw_rx == 0),
        MIN_VALID_OFFSET <= info.cycle_total_tx - raw_tx <= i64::MAX,
        MIN_VALID_OFFSET <= info.cycle_total_rx - raw_rx <= i64::MAX,
    ensures
        raw_tx + resolved(info, raw_tx, raw_rx).offset_tx == info.cycle_total_tx,
        raw_rx + resolved(info, raw_tx, raw_rx).offset_rx == info.cycle_total_rx,
        sampled(resolved(info, raw_tx, raw_rx), raw_tx, raw_rx) == resolved(info, raw_tx, raw_rx),
        resolved(info, raw_tx, raw_rx).cycle_total_tx == info.cycle_total_tx,
        resolved(info, raw_tx, raw_rx).cycle_total_rx == info.cycle_total_rx,
{
}

/// After a restart of the host the offset is the total itself: a counter
/// that has since reached `raw` shows the total plus `raw`.
pub proof fn lemma_resolved_after_reboot(info: NetworkInfoView, raw_tx: u64, raw_rx: u64)
    requires
        offset_state(info.offset_tx) == OffsetState::NeedsRecompute(Reason::Reboot),
        info.cycle_total_tx + raw_tx <= i64::MAX,
        info.cycle_total_rx + raw_rx <= i64::MAX,
    ensures
        sampled(resolved(info, raw_tx, raw_rx), raw_tx, raw_rx).cycle_total_tx
            == info.cycle_total_tx + raw_tx,
        sampled(resolved(info, raw_tx, raw_rx), raw_tx, raw_rx).cycle_total_rx
            == info.cycle_total_rx + raw_rx,
{
}

/// An offset that is no mark is kept: a restart of the agent alone changes
/// nothing in the record.
pub proof fn lemma_valid_offset_is_kept(info: NetworkInfoView, raw_tx: u64, raw_rx: u64)
    requires
        offset_state(info.offset_tx) is Valid,
    ensures
        resolved(info, raw_tx, raw_rx) == info,
{
}

/// A record written under another configuration starts a new cycle: its
/// totals are zero and its cycle ends where the present configuration says,
/// whatever the record held.
pub proof fn lemma_config_change_restarts(
    info: NetworkInfoView,
    config: NetworkConfigView,
    now: Moment,
)
    requires
        info.config != config,
    ensures
        after_config_check(info, config, now) matches Ok(checked) ==> {
            &&& checked.config == config
            &&& checked.cycle_total_tx == 0
            &&& checked.cycle_total_rx == 0
            &&& next_reset(config.traffic_period, config.traffic_reset_day, now) == Ok::<
                int,
                SchedulerError,
            >(checked.next_reset_timestamp as int)
            &&& offset_state(checked.offset_tx) == OffsetState::NeedsRecompute(Reason::NewCycle)
        },
        after_config_check(info, config, now) is Err ==> next_reset(
            config.traffic_period,
            config.traffic_reset_day,
            now,
        ) is Err,
{
    lemma_next_reset_is_later(config.traffic_period, config.traffic_reset_day, now);
}

} // verus!
