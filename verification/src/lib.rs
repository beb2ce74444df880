//! Versioned Solana transactions: signature accounting, version selection,
//! durable-nonce detection, signing order and the transaction wire envelope,
//! with their contracts proved by Verus.
pub mod error;
mod external;
pub mod message;
pub mod short_u16;
pub mod signature;
pub mod transaction_view;
pub mod versioned;
pub mod wire;
