//! Network traffic accounting for a host-monitoring agent.
//!
//! Interface byte counters restart from zero whenever the agent or the host
//! restarts. This crate turns them into one continuous total per billing
//! cycle: it computes when a cycle ends, keeps the running state as text,
//! and reconciles that state with the counters at every start.
//!
//! - [`scheduler`] computes the end of a cycle, over the arithmetic of
//!   [`calendar`] and the conversions of [`clock`].
//! - [`record`] holds the state, [`codec`] its text form, [`migration`] the
//!   totals of an older text form.
//! - [`offset`] relates counters and totals; [`recovery`] brings a record up
//!   to date when a cycle starts; [`driver`] decides the steps of the loop
//!   that keeps it.
//! - [`interfaces`], [`disks`], [`report`] and [`ip`] compute what the agent
//!   reports from what it has read of the host.
//! - [`text`] and [`decimal`] read and write characters and numbers.
//!
//! The crate reads no clock, no counter and no file: its callers do, and
//! hand it plain values.

pub mod calendar;
pub mod clock;
pub mod codec;
pub mod config;
pub mod decimal;
pub mod disks;
pub mod driver;
pub mod interfaces;
pub mod ip;
pub mod migration;
pub mod offset;
pub mod record;
pub mod recovery;
pub mod report;
pub mod scheduler;
pub mod text;
