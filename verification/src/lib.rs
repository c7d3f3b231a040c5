//! Host diagnostics for XDP packet processing: probes that inspect kernel,
//! privilege, interface, resource and runtime state, and an aggregator that
//! merges their findings into one severity-graded report.

pub mod capabilities;
pub mod ethtool;
pub mod host;
pub mod kernel;
pub mod nic;
pub mod report;
pub mod runtime;
pub mod status;
pub mod system;
pub mod text;

pub use status::{CheckResult, CheckStatus, CheckView, ProbeError};
