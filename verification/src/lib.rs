//! A minimal proof-of-work ledger: signed transfers, hash-linked blocks,
//! nonce search, and balances computed by replaying the chain.

pub mod block;
pub mod blockchain;
mod clock;
pub mod encoding;
pub mod keymanager;
pub mod transaction;
