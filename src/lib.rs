//! A custody ledger for physical shipments.
//!
//! Each shipment moves through a small state machine (in transit, received
//! again, delivered). Delivered shipments are queued in a bounded log that a
//! per-block maintenance hook drains, removing their records from the ledger.
//! The host supplies the authenticated caller, the current block number and
//! the delivery of the returned events.

pub mod types;
pub mod ledger;
pub mod laws;

pub use types::{AccountId, BlockNumber, Coords, Error, Event, Shipment, MAX_DELIVERED_LOG};
pub use ledger::Pallet;
