//! What the operator configures: the billing period and where the state is kept.

use vstd::prelude::*;

verus! {

/// Length of a billing cycle.
#[derive(Clone, Copy, Debug, PartialEq, Eq, Structural)]
pub enum TrafficPeriod {
    Week,
    Month,
    Year,
}

/// Where the agent asks for its public address.
#[derive(Clone, Copy, Debug, PartialEq, Eq, Structural)]
pub enum IpProvider {
    Cloudflare,
    Ipinfo,
}

/// How much the agent logs.
#[derive(Clone, Copy, Debug, PartialEq, Eq, Structural)]
pub enum LogLevel {
    Error,
    Warn,
    Info,
    Debug,
    Trace,
}

/// The provider that is asked unless another is chosen.
pub fn ip_provider() -> (r: IpProvider)
    ensures
        r == IpProvider::Ipinfo,
{
    IpProvider::Ipinfo
}

/// The log level unless another is chosen.
pub fn log_level() -> (r: LogLevel)
    ensures
        r == LogLevel::Info,
{
    LogLevel::Info
}

/// Settings of the traffic accounting, fixed for one run of the agent.
#[derive(Debug)]
pub struct NetworkConfig {
    /// Switches the accounting off.
    pub disable_network_statistics: bool,
    /// Seconds between two samples of the interface counters.
    pub network_interval: u32,
    /// Path of the file that keeps the state.
    pub network_save_path: String,
    /// Length of a billing cycle.
    pub traffic_period: TrafficPeriod,
    /// When a cycle ends: a weekday (`mon`..`sun` or `1`..`7`), a day of the
    /// month (`1`..`31`) or a day of the year (`MM/DD`), by period.
    pub traffic_reset_day: String,
}

/// A `NetworkConfig` as plain values.
pub struct NetworkConfigView {
    pub disable_network_statistics: bool,
    pub network_interval: u32,
    pub network_save_path: Seq<char>,
    pub traffic_period: TrafficPeriod,
    pub traffic_reset_day: Seq<char>,
}

impl View for NetworkConfig {
    type V = NetworkConfigView;

    open spec fn view(&self) -> NetworkConfigView {
        NetworkConfigView {
            disable_network_statistics: self.disable_network_statistics,
            network_interval: self.network_interval,
            network_save_path: self.network_save_path@,
            traffic_period: self.traffic_period,
            traffic_reset_day: self.traffic_reset_day@,
        }
    }
}

impl Clone for NetworkConfig {
    fn clone(&self) -> (r: Self)
        ensures
            r@ == self@,
    {
        NetworkConfig {
            disable_network_statistics: self.disable_network_statistics,
            network_interval: self.network_interval,
            network_save_path: self.network_save_path.clone(),
            traffic_period: self.traffic_period,
            traffic_reset_day: self.traffic_reset_day.clone(),
        }
    }
}

impl PartialEq for NetworkConfig {
    fn eq(&self, other: &Self) -> (r: bool) {
        self.disable_network_statistics == other.disable_network_statistics
            && self.network_interval == other.network_interval && self.network_save_path
            == other.network_save_path && self.traffic_period == other.traffic_period
            && self.traffic_reset_day == other.traffic_reset_day
    }
}

impl vstd::std_specs::cmp::PartialEqSpecImpl for NetworkConfig {
    open spec fn obeys_eq_spec() -> bool {
        true
    }

    open spec fn eq_spec(&self, other: &Self) -> bool {
        self@ == other@
    }
}

impl Eq for NetworkConfig {

}

} // verus!
