//! Time-weighted exponential moving averages for an oracle's price entries:
//! a 64-bucket presence tracker per timeframe, an adaptively smoothed update
//! and a coverage check before an average may be trusted.

pub mod tracker;
pub mod decimal;
pub mod error;
pub mod oracle_mappings;
pub mod oracle_twaps;
pub mod twap;
