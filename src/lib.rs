//! Verified core of two access-controlled token state machines: a divisible
//! balance ledger with recurring operations, and a membership registry. Both
//! gate their mutations by roles and report each change as events for the
//! host to broadcast.
mod account;
pub mod access;
pub mod event_hub;
pub mod holdings;
pub mod ledger;
pub mod ledger_api;
pub mod ledger_service;
pub mod membership;
pub mod membership_api;
pub mod membership_service;
pub mod tasks;

pub use account::Account;
