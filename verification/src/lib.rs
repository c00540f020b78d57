//! A data-request broker for a ledger of accounts: requesters pay to have a
//! value delivered, authorized nodes deliver it, and the owner withdraws what
//! was collected. Every decision the broker takes is a verified function from
//! the current state and the facts of the call to the next state and the
//! calls that the host has to make.

pub mod account;
pub mod request;
pub mod nonces;
pub mod listing;
pub mod ledger;
pub mod error;
pub mod registry;
pub mod chain;
pub mod model;
pub mod broker;
pub mod laws;
pub mod price;
pub mod client;
pub mod oracle_client;
