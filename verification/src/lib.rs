//! A verified fungible-token ledger in the PRFC-1 style: balances, bounded
//! spending rights ("allowances"), and the binary notifications the four
//! state-changing operations emit.
//!
//! The ledger itself is a plain in-memory value; the hosting runtime owns
//! persistence, caller authentication and the notification transport, and
//! hands this library plain values (the caller's address, the requested
//! amounts) in exchange for the next state and the notification to publish.

pub mod events;
pub mod laws;
pub mod ledger;
pub mod tables;
