//! Core of an endpoint detection and response (EDR) sensor for Linux hosts.
//!
//! Observations arrive as [`types::SystemEvent`] records, pass through
//! indicator matching ([`ioc`]), behavioural rules ([`rules`]) and scoring
//! ([`scoring`]), feed a sliding-window correlator ([`correlator`]), and come
//! out of the detection engine ([`engine`]) as [`types::Threat`] records.  The
//! response engine ([`response`]) maps a threat to its ladder of response
//! actions.  Events and threats can be serialised ([`codec`]) and kept in an
//! embedded key-value store ([`store`]); [`probes`] grades raw observations
//! and [`forensics`] holds the snapshot records and archive layout.
//!
//! Scores are fixed-point numbers in hundredths (`750` means 7.5) and
//! timestamps are milliseconds on the caller's clock, so that every rule of
//! the pipeline is stated and checked exactly.

pub mod codec;
pub mod correlator;
pub mod engine;
pub mod forensics;
mod ids;
pub mod ioc;
pub mod probes;
pub mod response;
pub mod rules;
pub mod scoring;
pub mod store;
pub mod text;
pub mod types;
