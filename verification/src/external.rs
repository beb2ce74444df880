//! The outside types this library handles and the trusted wrappers around
//! the outside functions it calls. Verus believes the contracts here; each
//! doc comment says what is claimed of the outside code.
use crate::error::SanitizeError;
use crate::message::MessageVersion::{Legacy, V0, V1};
use crate::message::{parts_are, CompiledInstruction, MessageParts, MessageVersion};
use solana_address::Address;
use solana_message::VersionedMessage;
use solana_sanitize::SanitizeError::{IndexOutOfBounds, InvalidValue, ValueOutOfBounds};
use wincode::SchemaRead;
use crate::signature::Signature;
use vstd::prelude::*;
use wincode::config::DefaultConfig;

verus! {

#[verifier::external_type_specification]
#[verifier::external_body]
pub struct ExVersionedMessage(solana_message::VersionedMessage);

#[verifier::external_type_specification]
#[verifier::external_body]
pub struct ExOutsideSignerError(solana_signer::SignerError);

#[verifier::external_type_specification]
#[verifier::external_body]
pub struct ExWincodeReadError(wincode::ReadError);

#[verifier::external_type_specification]
#[verifier::external_body]
pub struct ExWincodeWriteError(wincode::WriteError);

/// The derived `Clone` of `solana_message::VersionedMessage`. The claim:
/// every field is cloned by its own derived or `Vec` clone, so the copy is
/// the same message.
pub assume_specification[ <solana_message::VersionedMessage as Clone>::clone ](
    m: &solana_message::VersionedMessage,
) -> (r: solana_message::VersionedMessage)
    ensures
        r == *m,
;

/// The wire encoding of a message: what `wincode::serialize` gives for it,
/// or `None` when it refuses (a list in the message is too long for its
/// length prefix).
pub uninterp spec fn message_encoding(m: VersionedMessage) -> Option<Seq<u8>>;

/// `wincode::serialize` of the message. The claim: the encoding depends on
/// the message alone, so it is named by it.
#[verifier::external_body]
pub(crate) fn message_serialize(m: &VersionedMessage) -> (r: Result<Vec<u8>, wincode::WriteError>)
    ensures
        match message_encoding(*m) {
            Some(w) => r matches Ok(v) && v@ == w,
            None => r is Err,
        },
{
    wincode::serialize(m)
}

/// The parts of a message that the transaction logic reads: its format,
/// `header().num_required_signatures`, `static_account_keys()`,
/// `instructions()` and the verdict of `sanitize()`.
pub uninterp spec fn message_parts(m: VersionedMessage) -> MessageParts;

/// The parts of `m` as plain values: its format (its variant, one arm
/// each), its number of required signatures, its static keys
/// (`Address::to_bytes`), its instructions (fields cloned), and the verdict
/// of `VersionedMessage::sanitize` (the variant of
/// `solana_sanitize::SanitizeError`, one arm each). The claim: these
/// accessors and `sanitize` look at nothing but the message, so the parts
/// are named by it.
#[verifier::external_body]
pub(crate) fn message_parts_of(m: &VersionedMessage) -> (r: (
    MessageVersion,
    u8,
    Vec<[u8; 32]>,
    Vec<CompiledInstruction>,
    Result<(), SanitizeError>,
))
    ensures
        parts_are(message_parts(*m), r.0, r.1, r.2@, r.3@, r.4),
{
    let version = match m {
        VersionedMessage::Legacy(_) => Legacy,
        VersionedMessage::V0(_) => V0,
        VersionedMessage::V1(_) => V1,
    };
    let verdict = m.sanitize().map_err(|e| match e {
        IndexOutOfBounds => SanitizeError::IndexOutOfBounds,
        ValueOutOfBounds => SanitizeError::ValueOutOfBounds,
        InvalidValue => SanitizeError::InvalidValue,
    });
    (version, m.header().num_required_signatures, m.static_account_keys().iter().map(Address::to_bytes).collect(),
        m.instructions().iter().map(|ix| CompiledInstruction { program_id_index: ix.program_id_index, accounts: ix.accounts.clone(), data: ix.data.clone() }).collect(), verdict)
}

/// What reading one message from the front of `bytes` with wincode's
/// `SchemaRead::get` gives: the message and the number of bytes it took, or
/// `None` when the reader refuses the bytes.
pub uninterp spec fn message_read(bytes: Seq<u8>) -> Option<(VersionedMessage, nat)>;

/// Reads one `solana_message::VersionedMessage` from the front of `bytes`
/// with wincode's `SchemaRead::get` over a slice reader, and returns it with
/// the number of bytes left unread. The claim: the reader's outcome depends
/// on the bytes alone (the slice reader only moves forward over them), so it
/// is named by them; the bytes taken and the bytes left add up to the bytes
/// given.
#[verifier::external_body]
pub(crate) fn read_message(bytes: &[u8]) -> (r: Result<(VersionedMessage, usize), wincode::ReadError>)
    ensures
        match message_read(bytes@) {
            None => r is Err,
            Some((message, taken)) => r matches Ok((m, left)) && m == message && left + taken
                == bytes@.len(),
        },
{
    let mut reader = bytes;
    let m = <VersionedMessage as SchemaRead<DefaultConfig>>::get(&mut reader)?;
    Ok((m, reader.len()))
}

/// The digit `d` (below ten) as a character.
pub open spec fn digit_char(d: nat) -> char {
    ('0' as nat + d) as char
}

/// The decimal digits of `n`, most significant first, without sign or
/// leading zeros.
pub open spec fn decimal_digits(n: nat) -> Seq<char>
    decreases n,
{
    if n < 10 {
        seq![digit_char(n)]
    } else {
        decimal_digits(n / 10).push(digit_char(n % 10))
    }
}

/// `format!("{}", n)`: std's `Display` of an unsigned integer, which writes
/// it in decimal digits, without sign, padding or leading zeros.
#[verifier::external_body]
pub(crate) fn decimal_string(n: usize) -> (r: String)
    ensures
        r@ == decimal_digits(n as nat),
{
    format!("{}", n)
}

/// Whether the first four bytes of some instruction data are those of the
/// system program's `AdvanceNonceAccount` instruction, `[4, 0, 0, 0]`; later
/// bytes are not looked at.
pub open spec fn is_advance_nonce_data(data: Seq<u8>) -> bool {
    &&& data.len() >= 4
    &&& data[0] == 4
    &&& data[1] == 0
    &&& data[2] == 0
    &&& data[3] == 0
}

/// `solana_message::inline_nonce::is_advance_nonce_instruction_data`. Its
/// source compares `data.get(0..4)` with `Some(&[4, 0, 0, 0])`, which is
/// what the contract states.
#[verifier::external_body]
pub(crate) fn is_advance_nonce_instruction_data(data: &[u8]) -> (r: bool)
    ensures
        r == is_advance_nonce_data(data@),
{
    solana_message::inline_nonce::is_advance_nonce_instruction_data(data)
}

/// The bytes of the system program's id: it is declared as
/// `"11111111111111111111111111111111"`, the base58 text of 32 zero bytes.
pub open spec fn system_program_id() -> Seq<u8> {
    Seq::new(32, |i: int| 0u8)
}

/// `solana_sdk_ids::system_program::check_id` on the key with these bytes.
/// The claim: it holds exactly of the system program's id, 32 zero bytes.
#[verifier::external_body]
pub(crate) fn is_system_program(key: &[u8; 32]) -> (r: bool)
    ensures
        r == (key@ == system_program_id()),
{
    solana_sdk_ids::system_program::check_id(&solana_address::Address::new_from_array(*key))
}

/// Whether `signature` is a valid Ed25519 signature of `message` under the
/// public key `pubkey`, as `solana_signature::Signature::verify` decides it.
pub uninterp spec fn ed25519_signature_verifies(
    signature: Seq<u8>,
    pubkey: Seq<u8>,
    message: Seq<u8>,
) -> bool;

/// `solana_signature::Signature::verify` of the signature with these bytes.
/// The claim: its answer depends on the three byte strings alone (it runs
/// Ed25519 verification on them), so it is named by them.
#[verifier::external_body]
pub(crate) fn verify_signature(signature: &Signature, pubkey: &[u8; 32], message: &[u8]) -> (r:
    bool)
    ensures
        r == ed25519_signature_verifies(signature@, pubkey@, message@),
{
    solana_signature::Signature::from(signature.0).verify(pubkey, message)
}

/// The bytes of the hash that `VersionedMessage::hash_raw_message` gives for
/// a raw message (blake3 over a fixed domain prefix and the message).
pub uninterp spec fn raw_message_hash(message: Seq<u8>) -> Seq<u8>;

/// `solana_message::VersionedMessage::hash_raw_message`, as bytes
/// (`Hash::to_bytes`). The claim: the hash depends on the message bytes
/// alone, so it is named by them.
#[verifier::external_body]
pub(crate) fn hash_raw_message(message: &[u8]) -> (r: [u8; 32])
    ensures
        r@ == raw_message_hash(message@),
{
    solana_message::VersionedMessage::hash_raw_message(message).to_bytes()
}

/// `Signers::try_pubkeys` of the keypairs, each key as its bytes
/// (`Address::to_bytes`). Nothing is claimed of the keys: they come from the
/// keypairs, which this library does not see.
#[verifier::external_body]
pub(crate) fn signer_pubkeys<T: solana_signer::signers::Signers + ?Sized>(keypairs: &T) -> Result<
    Vec<[u8; 32]>,
    solana_signer::SignerError,
> {
    keypairs.try_pubkeys().map(|keys| keys.iter().map(solana_address::Address::to_bytes).collect())
}

/// `Signers::try_sign_message` of the keypairs on `message`, each signature
/// as its bytes. Nothing is claimed of the signatures: they depend on the
/// keypairs' secret keys. Only the encoding of a message is ever handed to
/// signing: the requirement says so of `message`.
#[verifier::external_body]
pub(crate) fn sign_message<T: solana_signer::signers::Signers + ?Sized>(
    keypairs: &T,
    message: &[u8],
) -> Result<Vec<Signature>, solana_signer::SignerError>
    requires
        exists|m: VersionedMessage| #[trigger] message_encoding(m) == Some(message@),
{
    keypairs.try_sign_message(message).map(
        |sigs| sigs.into_iter().map(|s| Signature(<[u8; 64]>::from(s))).collect(),
    )
}

} // verus!
