//! The accounting record: what is known of the current cycle.

use crate::config::{NetworkConfig, NetworkConfigView};
use vstd::prelude::*;

verus! {

/// State of the traffic accounting, as kept on disk and in memory.
#[derive(Debug)]
pub struct NetworkInfo {
    /// The configuration that the record was written under.
    pub config: NetworkConfig,
    /// Identifier of the boot during which the record was written; empty
    /// where the host gives none.
    pub boot_id: String,
    /// Bytes sent in the current cycle.
    pub cycle_total_tx: u64,
    /// Bytes received in the current cycle.
    pub cycle_total_rx: u64,
    /// Unix timestamp at which the current cycle ends.
    pub next_reset_timestamp: i64,
    /// What to add to the sent-bytes counter to get `cycle_total_tx`, or one
    /// of the three marks of [`crate::offset`].
    pub offset_tx: i64,
    /// The same for received bytes.
    pub offset_rx: i64,
}

/// A `NetworkInfo` as plain values.
pub struct NetworkInfoView {
    pub config: NetworkConfigView,
    pub boot_id: Seq<char>,
    pub cycle_total_tx: u64,
    pub cycle_total_rx: u64,
    pub next_reset_timestamp: i64,
    pub offset_tx: i64,
    pub offset_rx: i64,
}

impl View for NetworkInfo {
    type V = NetworkInfoView;

    open spec fn view(&self) -> NetworkInfoView {
        NetworkInfoView {
            config: self.config@,
            boot_id: self.boot_id@,
            cycle_total_tx: self.cycle_total_tx,
            cycle_total_rx: self.cycle_total_rx,
            next_reset_timestamp: self.next_reset_timestamp,
            offset_tx: self.offset_tx,
            offset_rx: self.offset_rx,
        }
    }
}

impl Clone for NetworkInfo {
    fn clone(&self) -> (r: Self)
        ensures
            r@ == self@,
    {
        NetworkInfo {
            config: self.config.clone(),
            boot_id: self.boot_id.clone(),
            cycle_total_tx: self.cycle_total_tx,
            cycle_total_rx: self.cycle_total_rx,
            next_reset_timestamp: self.next_reset_timestamp,
            offset_tx: self.offset_tx,
            offset_rx: self.offset_rx,
        }
    }
}

impl PartialEq for NetworkInfo {
    fn eq(&self, other: &Self) -> (r: bool) {
        self.config == other.config && self.boot_id == other.boot_id && self.cycle_total_tx
            == other.cycle_total_tx && self.cycle_total_rx == other.cycle_total_rx
            && self.next_reset_timestamp == other.next_reset_timestamp && self.offset_tx
            == other.offset_tx && self.offset_rx == other.offset_rx
    }
}

impl vstd::std_specs::cmp::PartialEqSpecImpl for NetworkInfo {
    open spec fn obeys_eq_spec() -> bool {
        true
    }

    open spec fn eq_spec(&self, other: &Self) -> bool {
        self@ == other@
    }
}

impl Eq for NetworkInfo {

}

} // verus!
