//! The core of a terminal dashboard that watches network endpoints: the state that
//! the results of the periodic checks are aggregated into, and the steps of the
//! loop that keeps it.
//!
//! Each endpoint has a rolling record: its latest status and latency, a bounded
//! history of latencies with their least, mean and greatest value, the number of
//! checks and of failed checks with the uptime that follows, and a bounded log of
//! the most recent results. One consumer owns all records and applies the results
//! one by one, so a result for one endpoint never touches another.
//!
//! - [`config`]: the configured endpoints and their defaults.
//! - [`backend`]: what a probe reports, and how its raw end is classified.
//! - [`model`]: the mathematical model of the state, and what holds of it.
//! - [`state`]: the state itself, with the operations that the model describes.
//! - [`stats`]: latency statistics and availability figures.
//! - [`actions`]: the commands of the user.
//! - [`consumer`]: one turn of the consumer loop, draining the result channel.
//! - [`table`]: the rows of the summary table.

pub mod actions;
pub mod backend;
pub mod config;
pub mod consumer;
pub mod model;
pub mod state;
pub mod stats;
pub mod table;
