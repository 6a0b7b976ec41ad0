//! Ledger reconciliation and relationship-state engine for a
//! payments-plus-messaging service.
//!
//! The crate keeps two linked parties' financial and conversational state
//! in sync: externally verified transfers are applied exactly once, mirrored
//! into each known party's append-only history, and reflected in a shared,
//! recency-ordered chat or business-relationship timeline.  A small
//! request-payment handshake (request, fulfillment, lazy expiry) is embedded
//! in the chat timeline.

pub mod business;
pub mod chat;
pub mod error;
pub mod history;
pub mod identity;
pub mod ledger;
pub mod recency;
pub mod state;
pub mod strkey;
pub mod strmap;
pub mod textseq;
pub mod txreg;
pub mod user;
