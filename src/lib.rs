//! Read-only aggregation of chain statistics and staking metrics over
//! ledger records that a store hands in.

pub mod address;
pub mod outcome;
pub mod statistics;
pub mod staking;
