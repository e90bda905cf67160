//! A payments engine: a per-client ledger of available, held and total funds,
//! driven by a stream of deposits, withdrawals, disputes, resolutions and
//! chargebacks.
//!
//! All amounts are fixed-point values with four decimal digits, held as
//! integers; every balance change is checked against overflow and underflow.

pub mod money;
pub mod ledger;
pub mod dispatcher;
pub mod pipeline;
pub mod report;
pub mod generator;
