//! Views of transactions as they come off the wire: their version byte,
//! size limits, and a walk over their instructions.
pub mod instruction_iterator;
pub mod limits;
pub mod transaction_version;
