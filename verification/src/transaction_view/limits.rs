//! Serialized transaction size limits.
pub use solana_message::v1::MAX_TRANSACTION_SIZE;
/// Maximum serialized size for legacy and v0 transactions.
pub use solana_packet::PACKET_DATA_SIZE as MAX_LEGACY_OR_V0_TRANSACTION_SIZE;
