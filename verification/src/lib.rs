//! Verified core of the wind-turbine blade condition-monitoring backend.
//!
//! The library holds the integer, string and state-keeping logic of the
//! service: blade health bookkeeping, damage statistics and health rankings,
//! alarm cooldown decisions, bounded measurement histories, per-blade strain
//! reading buffers, identifier and InfluxQL query construction.

use vstd::prelude::*;

pub mod models;
pub mod errors;
pub mod statistics;
pub mod keyed;
pub mod time_text;
pub mod cooldown;
pub mod history;
pub mod ids;
pub mod blade_cache;
pub mod readings;
pub mod signal;
pub mod queries;
pub mod mes;
pub mod laws;

verus! {
} // verus!
