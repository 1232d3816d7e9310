//! The decisions of the accounting loop.
//!
//! The loop itself waits, reads the clock and the counters, and opens, reads
//! and writes the state file; none of that is done here. This module says
//! what to do next: [`network_saver`] gives the first step, [`step`] each
//! following one, from the state of the loop and from what the last step
//! brought.

use crate::codec::encoded;
use crate::config::NetworkConfig;
use crate::offset::{cumulative, cumulative_total};
use crate::record::{NetworkInfo, NetworkInfoView};
use crate::scheduler::SchedulerError;
use vstd::prelude::*;

verus! {

/// What failed on the state file.
#[derive(Clone, Copy, Debug, PartialEq, Eq, Structural)]
pub enum PersistenceError {
    /// The file can be neither opened nor created.
    Open,
    /// The file cannot be read.
    Read,
    /// The file cannot be written.
    Write,
}

/// Why a cycle could not begin.
#[derive(Clone, Copy, Debug, PartialEq, Eq, Structural)]
pub enum RecoveryError {
    /// The state file cannot be had or kept.
    Persistence(PersistenceError),
    /// The end of the cycle cannot be computed from the configuration.
    Scheduler(SchedulerError),
}

/// Where the loop stands.
#[derive(Debug)]
pub enum DriverState {
    /// The accounting is off or has failed; nothing more is done.
    Stopped,
    /// A cycle is to begin: the record is being brought up to date.
    Recovering,
    /// A cycle runs with this record; the next sample is awaited.
    Sampling(NetworkInfo),
    /// A cycle runs with this record, which is being written.
    Saving(NetworkInfo),
}

/// What the last step brought.
#[derive(Debug)]
pub enum DriverEvent {
    /// The record to begin the cycle with; its offsets are published and it
    /// is written to the state file.
    Recovered(NetworkInfo),
    /// No record could be had.
    RecoveryFailed(RecoveryError),
    /// The clock and the counters, read after the wait.
    Sampled { now: i64, raw_tx: u64, raw_rx: u64 },
    /// The record is written.
    Saved,
    /// The record could not be written.
    SaveFailed(PersistenceError),
}

/// What to do next.
#[derive(Debug)]
pub enum DriverAction {
    /// End the loop.
    Stop,
    /// Bring the record up to date, publish its offsets and write it.
    Recover,
    /// Wait for the sampling interval, then read the clock and the counters.
    Sample,
    /// Replace the content of the state file by this text.
    Save(String),
}

/// A `DriverState` as plain values.
pub enum DriverStateView {
    Stopped,
    Recovering,
    Sampling(NetworkInfoView),
    Saving(NetworkInfoView),
}

/// A `DriverEvent` as plain values.
pub enum DriverEventView {
    Recovered(NetworkInfoView),
    RecoveryFailed(RecoveryError),
    Sampled { now: i64, raw_tx: u64, raw_rx: u64 },
    Saved,
    SaveFailed(PersistenceError),
}

/// A `DriverAction` as plain values.
pub enum DriverActionView {
    Stop,
    Recover,
    Sample,
    Save(Seq<char>),
}

impl View for DriverState {
    type V = DriverStateView;

    open spec fn view(&self) -> DriverStateView {
        match self {
            DriverState::Stopped => DriverStateView::Stopped,
            DriverState::Recovering => DriverStateView::Recovering,
            DriverState::Sampling(info) => DriverStateView::Sampling(info@),
            DriverState::Saving(info) => DriverStateView::Saving(info@),
        }
    }
}

impl View for DriverEvent {
    type V = DriverEventView;

    open spec fn view(&self) -> DriverEventView {
        match self {
            DriverEvent::Recovered(info) => DriverEventView::Recovered(info@),
            DriverEvent::RecoveryFailed(error) => DriverEventView::RecoveryFailed(*error),
            DriverEvent::Sampled { now, raw_tx, raw_rx } => DriverEventView::Sampled {
                now: *now,
                raw_tx: *raw_tx,
                raw_rx: *raw_rx,
            },
            DriverEvent::Saved => DriverEventView::Saved,
            DriverEvent::SaveFailed(error) => DriverEventView::SaveFailed(*error),
        }
    }
}

impl View for DriverAction {
    type V = DriverActionView;

    open spec fn view(&self) -> DriverActionView {
        match self {
            DriverAction::Stop => DriverActionView::Stop,
            DriverAction::Recover => DriverActionView::Recover,
            DriverAction::Sample => DriverActionView::Sample,
            DriverAction::Save(text) => DriverActionView::Save(text@),
        }
    }
}

/// The record after a sample: each total is what its counter shows under
/// the offset of the record.
pub open spec fn sampled(info: NetworkInfoView, raw_tx: u64, raw_rx: u64) -> NetworkInfoView {
    NetworkInfoView {
        cycle_total_tx: cumulative(raw_tx, info.offset_tx),
        cycle_total_rx: cumulative(raw_rx, info.offset_rx),
        ..info
    }
}

/// How the loop begins: not at all where the accounting is switched off,
/// else with a recovery.
pub open spec fn started(disabled: bool) -> (DriverStateView, DriverActionView) {
    if disabled {
        (DriverStateView::Stopped, DriverActionView::Stop)
    } else {
        (DriverStateView::Recovering, DriverActionView::Recover)
    }
}

/// The next state and what to do, for a state and what the last step
/// brought.
///
/// - A recovery that brought a record starts the sampling; one that failed
///   stops the loop, and only the loop.
/// - A sample taken at or after the end of the cycle starts a recovery, and
///   nothing is written; an earlier one updates the totals, which are then
///   written.
/// - After the writing comes the next sample, whether the writing failed or
///   not: a failure is retried with the totals of the next sample.
/// - What does not answer the step that the state waits for changes
///   nothing: the step is asked for again.
pub open spec fn stepped(state: DriverStateView, event: DriverEventView) -> (
    DriverStateView,
    DriverActionView,
) {
    match state {
        DriverStateView::Stopped => (DriverStateView::Stopped, DriverActionView::Stop),
        DriverStateView::Recovering => match event {
            DriverEventView::Recovered(info) => (
                DriverStateView::Sampling(info),
                DriverActionView::Sample,
            ),
            DriverEventView::RecoveryFailed(_) => (
                DriverStateView::Stopped,
                DriverActionView::Stop,
            ),
            _ => (DriverStateView::Recovering, DriverActionView::Recover),
        },
        DriverStateView::Sampling(info) => match event {
            DriverEventView::Sampled { now, raw_tx, raw_rx } => if now
                >= info.next_reset_timestamp {
                (DriverStateView::Recovering, DriverActionView::Recover)
            } else {
                (
                    DriverStateView::Saving(sampled(info, raw_tx, raw_rx)),
                    DriverActionView::Save(encoded(sampled(info, raw_tx, raw_rx))),
                )
            },
            _ => (DriverStateView::Sampling(info), DriverActionView::Sample),
        },
        DriverStateView::Saving(info) => match event {
            DriverEventView::Saved => (DriverStateView::Sampling(info), DriverActionView::Sample),
            DriverEventView::SaveFailed(_) => (
                DriverStateView::Sampling(info),
                DriverActionView::Sample,
            ),
            _ => (DriverStateView::Saving(info), DriverActionView::Save(encoded(info))),
        },
    }
}

/// Takes the counters into the totals of the record.
pub fn apply_sample(info: &mut NetworkInfo, raw_tx: u64, raw_rx: u64)
    ensures
        final(info)@ == sampled(old(info)@, raw_tx, raw_rx),
{
    info.cycle_total_tx = cumulative_total(raw_tx, info.offset_tx);
    info.cycle_total_rx = cumulative_total(raw_rx, info.offset_rx);
}

/// Begins the accounting loop: gives its first state and what to do first.
pub fn network_saver(network_config: &NetworkConfig) -> (r: (DriverState, DriverAction))
    ensures
        (r.0@, r.1@) == started(network_config.disable_network_statistics),
{
    if network_config.disable_network_statistics {
        (DriverState::Stopped, DriverAction::Stop)
    } else {
        (DriverState::Recovering, DriverAction::Recover)
    }
}

/// Gives the next state of the loop and what to do next.
pub fn step(state: DriverState, event: DriverEvent) -> (r: (DriverState, DriverAction))
    ensures
        (r.0@, r.1@) == stepped(state@, event@),
{
    match state {
        DriverState::Stopped => (DriverState::Stopped, DriverAction::Stop),
        DriverState::Recovering => match event {
            DriverEvent::Recovered(info) => (DriverState::Sampling(info), DriverAction::Sample),
            DriverEvent::RecoveryFailed(_) => (DriverState::Stopped, DriverAction::Stop),
            _ => (DriverState::Recovering, DriverAction::Recover),
        },
        DriverState::Sampling(info) => match event {
            DriverEvent::Sampled { now, raw_tx, raw_rx } => {
                if now >= info.next_reset_timestamp {
                    (DriverState::Recovering, DriverAction::Recover)
                } else {
                    let mut info = info;
                    apply_sample(&mut info, raw_tx, raw_rx);
                    let text = info.encode();
                    (DriverState::Saving(info), DriverAction::Save(text))
                }
            },
            _ => (DriverState::Sampling(info), DriverAction::Sample),
        },
        DriverState::Saving(info) => match event {
            DriverEvent::Saved => (DriverState::Sampling(info), DriverAction::Sample),
            DriverEvent::SaveFailed(_) => (DriverState::Sampling(info), DriverAction::Sample),
            _ => {
                let text = info.encode();
                (DriverState::Saving(info), DriverAction::Save(text))
            },
        },
    }
}

/// While a cycle runs under one offset, counters that have grown give totals
/// that have not shrunk.
pub proof fn lemma_totals_grow(info: NetworkInfoView, earlier: (u64, u64), later: (u64, u64))
    requires
        earlier.0 <= later.0,
        earlier.1 <= later.1,
    ensures
        sampled(info, earlier.0, earlier.1).cycle_total_tx <= sampled(
            info,
            later.0,
            later.1,
        ).cycle_total_tx,
        sampled(info, earlier.0, earlier.1).cycle_total_rx <= sampled(
            info,
            later.0,
            later.1,
        ).cycle_total_rx,
        sampled(info, later.0, later.1).offset_tx == info.offset_tx,
        sampled(info, later.0, later.1).offset_rx == info.offset_rx,
        sampled(info, later.0, later.1).next_reset_timestamp == info.next_reset_timestamp,
{
}

} // verus!
