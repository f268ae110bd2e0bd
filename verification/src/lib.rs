//! Marketplace and ticketing rules for a ledger of non-fungible tokens.
//!
//! Owners list tokens for sale, buyers purchase the cheapest listing under a
//! price ceiling, and the issuer redeems tickets, which locks and delists
//! them for good. Every function is verified against a contract over the
//! ledger as a mathematical value.
//!
//! - [`state`] and [`msg`] hold the records, the messages and the answers.
//! - [`order`] orders token ids, [`numeral`] writes the ids of tickets.
//! - [`ledger`] is the token ledger: the tokens in ascending order of their
//!   ids, the operator grants and the minter.
//! - [`guard`] decides who may change a token, and in which state a token
//!   can be changed at all.
//! - [`execute`] lists, buys and redeems; [`query`] pages through the tokens
//!   on offer.
//! - [`contract`] sets the contract up and dispatches messages and
//!   questions; [`context`] runs it in memory.
//! - [`laws`] states what holds of all this whatever the ledger and the
//!   call.

pub mod context;
pub mod contract;
pub mod error;
pub mod execute;
pub mod guard;
pub mod laws;
pub mod ledger;
pub mod msg;
pub mod numeral;
pub mod order;
pub mod query;
pub mod state;
