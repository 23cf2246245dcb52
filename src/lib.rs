//! Core of a credit-network node: the mutual-credit ledger of each channel,
//! the token channel that orders batches between two friends, per-friend
//! and per-node state changed only through mutations, process-local
//! liveness, the event handler with its cancellation and reset protocols,
//! and the report projection kept in step with the state.

pub mod types;
pub mod mutual_credit;
pub mod token_channel;
pub mod report;
pub mod friend;
pub mod state;
pub mod ephemeral;
pub mod handler;
pub mod funder;
