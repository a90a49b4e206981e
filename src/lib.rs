//! A ledger-resident lottery: participants pay into a pot for tickets, and a
//! draw pays the whole pot to the holder of one ticket, chosen from an
//! entropy value, then opens a new round.
//!
//! `state` holds the persisted record and its byte layout, `instruction` the
//! request payloads, `processor` the operations over plain account values,
//! and `laws` the properties proved of runs of operations.

pub mod error;
pub mod instruction;
pub mod laws;
pub mod processor;
pub mod pubkey;
pub mod state;
