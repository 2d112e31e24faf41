//! An escrow-and-dispute engine for a peer-to-peer data marketplace.
//!
//! Companies publish order forms that describe the data they want, people
//! upload data against an order, and the engine decides which ledger calls
//! settle a purchase, a confirmation or a dispute.

pub mod content_store;
pub mod types;
pub mod order_book;
pub mod data_registry;
pub mod ledger;
pub mod escrow;
pub mod laws;
