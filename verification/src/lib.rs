//! Order-ledger core of a point-of-sale system.
//!
//! The ledger durably records completed sales, assigns each order a
//! human-facing sequence number that restarts at 1 every local calendar
//! day, and produces per-day revenue reports broken out by payment
//! method.  Every operation carries a contract that pins its result to a
//! mathematical model of the stored orders, and the laws the model
//! obeys — contiguous per-day numbering, all-or-nothing writes, reports
//! consistent with listings — are stated and proved in `model`.

pub mod auth;
pub mod calendar;
pub mod ledger;
pub mod menu;
pub mod model;
pub mod orders;
pub mod printer;

pub use calendar::Date;
pub use calendar::Timestamp;
pub use ledger::Ledger;
