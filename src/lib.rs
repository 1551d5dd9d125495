//! Trust scoring of blockchain accounts: behavioural indicators, their penalty tiers, the
//! aggregated score and grade band, the report store, and the job lifecycle that drives it.

pub mod associates;
pub mod case_report;
pub mod indicators;
pub mod jobs;
pub mod penalty;
pub mod rating;
pub mod reputation;
pub mod severity;
pub mod stats;
pub mod store;
pub mod text;
pub mod wallet;
