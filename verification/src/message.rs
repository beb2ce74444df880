//! The message of a transaction, as the transaction logic reads it.
use crate::error::{EncodeError, SanitizeError};
use crate::external::{message_encoding, message_parts, message_parts_of, message_serialize};
use vstd::prelude::*;

verus! {

/// The three message formats.
#[derive(Debug, Clone, Copy, PartialEq, Eq, Structural)]
pub enum MessageVersion {
    Legacy,
    V0,
    V1,
}

/// An instruction of a message: the index of its program among the
/// message's keys, the indexes of its accounts, and its data.
#[derive(Debug, Clone, PartialEq, Eq)]
pub struct CompiledInstruction {
    pub program_id_index: u8,
    pub accounts: Vec<u8>,
    pub data: Vec<u8>,
}

/// What an instruction holds, as plain sequences.
pub struct InstructionModel {
    pub program_id_index: u8,
    pub accounts: Seq<u8>,
    pub data: Seq<u8>,
}

impl View for CompiledInstruction {
    type V = InstructionModel;

    open spec fn view(&self) -> InstructionModel {
        InstructionModel {
            program_id_index: self.program_id_index,
            accounts: self.accounts@,
            data: self.data@,
        }
    }
}

/// What a message holds that the transaction logic reads.
pub struct MessageModel {
    /// Which of the three formats the message has.
    pub version: MessageVersion,
    /// How many of the first static keys must sign.
    pub num_required_signatures: u8,
    /// The keys written in the message itself.
    pub static_account_keys: Seq<[u8; 32]>,
    /// The instructions, in order.
    pub instructions: Seq<InstructionModel>,
    /// The message's wire encoding: the bytes that are signed.
    pub wire: Seq<u8>,
    /// The verdict of the message's own consistency checks.
    pub sanitized: Result<(), SanitizeError>,
}

/// The parts of a message that the transaction logic reads, as plain
/// values.
pub struct MessageParts {
    pub version: MessageVersion,
    pub num_required_signatures: u8,
    pub static_account_keys: Seq<[u8; 32]>,
    pub instructions: Seq<InstructionModel>,
    pub sanitized: Result<(), SanitizeError>,
}

/// Whether these parts, as they are handed out, are `p`.
pub open spec fn parts_are(
    p: MessageParts,
    version: MessageVersion,
    num_required_signatures: u8,
    static_account_keys: Seq<[u8; 32]>,
    instructions: Seq<CompiledInstruction>,
    sanitized: Result<(), SanitizeError>,
) -> bool {
    &&& version == p.version
    &&& num_required_signatures == p.num_required_signatures
    &&& static_account_keys == p.static_account_keys
    &&& instructions.map_values(|ix: CompiledInstruction| ix@) == p.instructions
    &&& sanitized == p.sanitized
}

/// What the transaction logic reads of the message `m`: its parts and its
/// encoding, or `None` when it has no encoding.
pub open spec fn message_model(m: solana_message::VersionedMessage) -> Option<MessageModel> {
    match message_encoding(m) {
        Some(wire) => {
            let p = message_parts(m);
            Some(
                MessageModel {
                    version: p.version,
                    num_required_signatures: p.num_required_signatures,
                    static_account_keys: p.static_account_keys,
                    instructions: p.instructions,
                    wire,
                    sanitized: p.sanitized,
                },
            )
        },
        None => None,
    }
}

/// A transaction message: the `solana_message::VersionedMessage` itself,
/// with its encoding and the parts of it that the transaction logic reads
/// held as plain values.
#[derive(Debug, PartialEq, Eq)]
pub struct TransactionMessage {
    inner: solana_message::VersionedMessage,
    version: MessageVersion,
    num_required_signatures: u8,
    static_account_keys: Vec<[u8; 32]>,
    instructions: Vec<CompiledInstruction>,
    wire: Vec<u8>,
    sanitized: Result<(), SanitizeError>,
}

impl View for TransactionMessage {
    type V = MessageModel;

    closed spec fn view(&self) -> MessageModel {
        MessageModel {
            version: self.version,
            num_required_signatures: self.num_required_signatures,
            static_account_keys: self.static_account_keys@,
            instructions: self.instructions@.map_values(|ix: CompiledInstruction| ix@),
            wire: self.wire@,
            sanitized: self.sanitized,
        }
    }
}

impl Clone for TransactionMessage {
    /// A copy of the message, with the same model.
    fn clone(&self) -> (r: Self)
        ensures
            r.inner() == self.inner(),
            r@ == self@,
    {
        proof {
            use_type_invariant(self);
        }
        let inner = self.inner.clone();
        let wire = self.wire.clone();
        assert(wire@ =~= self.wire@);
        let (version, num_required_signatures, static_account_keys, instructions, sanitized) =
            message_parts_of(&inner);
        TransactionMessage {
            inner,
            version,
            num_required_signatures,
            static_account_keys,
            instructions,
            wire,
            sanitized,
        }
    }
}

impl TransactionMessage {
    /// The plain values are the parts and the encoding of the message held.
    #[verifier::type_invariant]
    spec fn holds_model_of_inner(self) -> bool {
        message_model(self.inner) == Some(self@)
    }

    /// Takes `inner` as a transaction message: its encoding, and its parts
    /// as plain values. Fails exactly when the message has no encoding (a
    /// list in it is too long for its length prefix).
    pub fn new(inner: solana_message::VersionedMessage) -> (r: Result<TransactionMessage, EncodeError>)
        ensures
            match message_model(inner) {
                Some(model) => r matches Ok(m) && m.inner() == inner && m@ == model,
                None => r matches Err(e) && e is Message,
            },
    {
        match Self::from_message(inner) {
            Ok(m) => Ok(m),
            Err(e) => Err(EncodeError::Message(e)),
        }
    }

    /// `inner` as a transaction message, or the encoder's error when it has
    /// no encoding.
    pub(crate) fn from_message(inner: solana_message::VersionedMessage) -> (r: Result<
        TransactionMessage,
        wincode::WriteError,
    >)
        ensures
            match message_model(inner) {
                Some(model) => r matches Ok(m) && m.inner() == inner && m@ == model,
                None => r is Err,
            },
    {
        let wire = match message_serialize(&inner) {
            Ok(w) => w,
            Err(e) => return Err(e),
        };
        let (version, num_required_signatures, static_account_keys, instructions, sanitized) =
            message_parts_of(&inner);
        let m = TransactionMessage {
            inner,
            version,
            num_required_signatures,
            static_account_keys,
            instructions,
            wire,
            sanitized,
        };
        assert(m@ == message_model(m.inner).unwrap());
        Ok(m)
    }

    /// The underlying `solana_message::VersionedMessage`.
    pub closed spec fn inner(&self) -> solana_message::VersionedMessage {
        self.inner
    }

    /// The underlying `solana_message::VersionedMessage`; the plain values
    /// are its model.
    pub fn as_inner(&self) -> (r: &solana_message::VersionedMessage)
        ensures
            *r == self.inner(),
            message_model(*r) == Some(self@),
    {
        proof {
            use_type_invariant(self);
        }
        &self.inner
    }

    /// Which of the three formats the message has.
    pub fn version(&self) -> (r: MessageVersion)
        ensures
            r == self@.version,
    {
        self.version
    }

    /// How many of the first static keys must sign.
    pub fn num_required_signatures(&self) -> (r: u8)
        ensures
            r == self@.num_required_signatures,
    {
        self.num_required_signatures
    }

    /// The keys written in the message itself.
    pub fn static_account_keys(&self) -> (r: &[[u8; 32]])
        ensures
            r@ == self@.static_account_keys,
    {
        self.static_account_keys.as_slice()
    }

    /// The instructions, in order.
    pub fn instructions(&self) -> (r: &[CompiledInstruction])
        ensures
            r@.map_values(|ix: CompiledInstruction| ix@) == self@.instructions,
    {
        self.instructions.as_slice()
    }

    /// The message's wire encoding: the encoding of the message held.
    pub fn wire(&self) -> (r: &[u8])
        ensures
            r@ == self@.wire,
            message_encoding(self.inner()) == Some(r@),
    {
        proof {
            use_type_invariant(self);
        }
        self.wire.as_slice()
    }

    /// The verdict of the message's own consistency checks
    /// (`VersionedMessage::sanitize`).
    pub fn sanitize(&self) -> (r: Result<(), SanitizeError>)
        ensures
            r == self@.sanitized,
    {
        self.sanitized
    }
}

} // verus!
