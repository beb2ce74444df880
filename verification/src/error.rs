//! Errors reported by this library.
use vstd::prelude::*;

verus! {

/// Why a transaction or message failed its consistency checks.
#[derive(Debug, Clone, Copy, PartialEq, Eq)]
pub enum SanitizeError {
    IndexOutOfBounds,
    ValueOutOfBounds,
    InvalidValue,
}

/// Why signing a message failed.
#[derive(Debug, PartialEq, Eq)]
pub enum SigningError {
    /// A required signer's key is not among the keypairs' keys.
    KeypairPubkeyMismatch,
    /// Fewer keypairs than required signatures.
    NotEnoughSigners,
    /// More keypairs than required signatures.
    TooManySigners,
    /// The message or the keypairs are not usable for signing.
    InvalidInput(String),
    /// An error reported by the keypairs themselves.
    Signer(solana_signer::SignerError),
}

/// Why a transaction failed verification.
#[derive(Debug, Clone, Copy, PartialEq, Eq)]
pub enum TransactionError {
    /// Some signature does not verify against its signer's key.
    SignatureFailure,
}

/// Why reading a transaction from bytes failed.
#[derive(Debug)]
pub enum DecodeError {
    /// The input ended before the transaction did.
    EndOfInput,
    /// A length prefix is not in its canonical form.
    InvalidValue(&'static str),
    /// A length prefix encodes a value above `u16::MAX`.
    LengthEncodingOverflow(&'static str),
    /// The envelope and the message disagree, or the first byte names no
    /// known transaction format.
    Custom(&'static str),
    /// The message could not be read.
    Message(wincode::ReadError),
    /// The message read has no encoding.
    Unencodable(wincode::WriteError),
}

/// Why writing a transaction or a message to bytes failed.
#[derive(Debug)]
pub enum EncodeError {
    /// A length does not fit its length prefix.
    LengthEncodingOverflow(&'static str),
    /// The message could not be written.
    Message(wincode::WriteError),
}

} // verus!
