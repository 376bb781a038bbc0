//! Read-only query layer over a ledger of on-chain undelegation events.
//!
//! The library resolves pagination parameters, builds the counting and page
//! queries for the two lookup operations (by delegator, by validator),
//! normalizes stored rows into their wire form, and gives the queries a
//! verified reference semantics over an in-memory model of the append-only
//! event table.

pub mod pagination;
pub mod plan;
pub mod record;
pub mod service;
pub mod table;
pub mod time;
