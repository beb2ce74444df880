//! The version of a transaction as a single byte.
use vstd::prelude::*;

verus! {

/// A byte that represents the version of the transaction.
#[derive(Copy, Clone, Debug, PartialEq, Eq, Structural)]
pub enum TransactionVersion {
    Legacy,
    V0,
    /// Transaction message version 1.
    V1,
}

/// The byte that represents a version: `u8::MAX` for legacy transactions,
/// the version number otherwise.
pub open spec fn version_byte(v: TransactionVersion) -> u8 {
    match v {
        TransactionVersion::Legacy => u8::MAX,
        TransactionVersion::V0 => 0,
        TransactionVersion::V1 => 1,
    }
}

impl TransactionVersion {
    /// The byte that represents the version.
    pub fn as_u8(self) -> (r: u8)
        ensures
            r == version_byte(self),
    {
        match self {
            TransactionVersion::Legacy => u8::MAX,
            TransactionVersion::V0 => 0,
            TransactionVersion::V1 => 1,
        }
    }
}

impl Default for TransactionVersion {
    /// Transactions are legacy unless they say otherwise.
    fn default() -> (r: TransactionVersion)
        ensures
            r == TransactionVersion::Legacy,
    {
        TransactionVersion::Legacy
    }
}

/// The three versions have different bytes.
pub proof fn lemma_version_byte_injective(a: TransactionVersion, b: TransactionVersion)
    ensures
        version_byte(a) == version_byte(b) ==> a == b,
{
}

} // verus!
