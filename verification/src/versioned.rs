//! A transaction that supports multiple versions of messages.
use crate::error::{SanitizeError, SigningError, TransactionError};
use crate::external::{
    ed25519_signature_verifies, hash_raw_message, is_advance_nonce_data,
    is_advance_nonce_instruction_data, is_system_program, raw_message_hash, sign_message,
    signer_pubkeys, system_program_id, verify_signature,
};
use crate::message::{MessageModel, MessageVersion, TransactionMessage};
use crate::signature::Signature;
use vstd::prelude::*;

verus! {

/// Index of the instruction that marks a transaction as using a durable
/// nonce: the first one.
pub const NONCED_TX_MARKER_IX_INDEX: u8 = 0;

/// The version tag of legacy transactions.
#[derive(Debug, Clone, Copy, PartialEq, Eq)]
pub enum Legacy {
    Legacy,
}

/// The version of a transaction: legacy, or a version number.
#[derive(Debug, Clone, Copy, PartialEq, Eq)]
pub enum TransactionVersion {
    Legacy(Legacy),
    Number(u8),
}

impl TransactionVersion {
    /// The version of legacy transactions.
    pub fn legacy() -> (r: Self)
        ensures
            r == TransactionVersion::Legacy(Legacy::Legacy),
    {
        Self::Legacy(Legacy::Legacy)
    }
}

/// The version of a transaction whose message has format `v`.
pub open spec fn version_of(v: MessageVersion) -> TransactionVersion {
    match v {
        MessageVersion::Legacy => TransactionVersion::Legacy(Legacy::Legacy),
        MessageVersion::V0 => TransactionVersion::Number(0),
        MessageVersion::V1 => TransactionVersion::Number(1),
    }
}

/// The signature-count check of a transaction that needs `num_required`
/// signatures, has `num_static_keys` keys in its message and carries
/// `num_signatures` signatures: exactly the required number, and no more
/// than the message's own keys, since signatures are checked before any
/// other keys are loaded.
pub open spec fn signature_count_check(
    num_required: nat,
    num_static_keys: nat,
    num_signatures: nat,
) -> Result<(), SanitizeError> {
    if num_required > num_signatures {
        Err(SanitizeError::IndexOutOfBounds)
    } else if num_required < num_signatures {
        Err(SanitizeError::InvalidValue)
    } else if num_signatures > num_static_keys {
        Err(SanitizeError::IndexOutOfBounds)
    } else {
        Ok(())
    }
}

/// Whether a message starts with a durable-nonce advance: its first
/// instruction exists, names the system program as its program, and its data
/// starts as `AdvanceNonceAccount`.
pub open spec fn starts_with_nonce_advance(m: MessageModel) -> bool {
    &&& m.instructions.len() > NONCED_TX_MARKER_IX_INDEX
    &&& {
        let ix = m.instructions[NONCED_TX_MARKER_IX_INDEX as int];
        &&& ix.program_id_index < m.static_account_keys.len()
        &&& m.static_account_keys[ix.program_id_index as int]@ == system_program_id()
        &&& is_advance_nonce_data(ix.data)
    }
}

/// The results of checking each signature against the key in the same
/// position among the message's keys, over `message`; as many as the
/// shorter of the two lists.
pub open spec fn verification_results(
    signatures: Seq<Signature>,
    keys: Seq<[u8; 32]>,
    message: Seq<u8>,
) -> Seq<bool> {
    let n = if signatures.len() < keys.len() {
        signatures.len()
    } else {
        keys.len()
    };
    Seq::new(n, |i: int| ed25519_signature_verifies(signatures[i]@, keys[i]@, message))
}

/// Whether the `i`-th of `sigs` is the signature at position `j` of the
/// keypairs' signatures, where `j` is the first keypair whose key is the
/// `i`-th expected key.
pub open spec fn signed_by_first_holder(
    expected: Seq<[u8; 32]>,
    signer_keys: Seq<[u8; 32]>,
    unordered: Seq<Signature>,
    sigs: Seq<Signature>,
    i: int,
    j: int,
) -> bool {
    &&& 0 <= j < signer_keys.len()
    &&& j < unordered.len()
    &&& signer_keys[j]@ == expected[i]@
    &&& forall|t: int| 0 <= t < j ==> signer_keys[t]@ != expected[i]@
    &&& sigs[i] == unordered[j]
}

/// Whether the `i`-th of `sigs` comes from the first keypair holding the
/// `i`-th expected key.
pub open spec fn signed_in_order_at(
    expected: Seq<[u8; 32]>,
    signer_keys: Seq<[u8; 32]>,
    unordered: Seq<Signature>,
    sigs: Seq<Signature>,
    i: int,
) -> bool {
    exists|j: int| signed_by_first_holder(expected, signer_keys, unordered, sigs, i, j)
}

/// Whether `sigs` are the keypairs' signatures put in the order of the
/// expected signer keys: as many as expected, and the `i`-th is the
/// signature at the position of the first keypair whose key is the `i`-th
/// expected key.
pub open spec fn signed_in_key_order(
    expected: Seq<[u8; 32]>,
    signer_keys: Seq<[u8; 32]>,
    unordered: Seq<Signature>,
    sigs: Seq<Signature>,
) -> bool {
    &&& sigs.len() == expected.len()
    &&& signer_keys.len() == expected.len()
    &&& forall|i: int|
        0 <= i < expected.len() ==> #[trigger] signed_in_order_at(
            expected,
            signer_keys,
            unordered,
            sigs,
            i,
        )
}

/// The legacy transaction a versioned one converts to, if its message is
/// a legacy message.
pub closed spec fn legacy_transaction_of(tx: VersionedTransaction) -> Option<Transaction> {
    if tx.message@.version == MessageVersion::Legacy {
        Some(Transaction { signatures: tx.signatures, message: tx.message })
    } else {
        None
    }
}

/// An atomic transaction.
#[derive(Debug, Clone, PartialEq, Eq)]
pub struct VersionedTransaction {
    /// List of signatures
    pub signatures: Vec<Signature>,
    /// Message to sign.
    pub message: TransactionMessage,
}

/// A legacy transaction: its message is a legacy message.
#[derive(Debug, PartialEq, Eq)]
pub struct Transaction {
    signatures: Vec<Signature>,
    message: TransactionMessage,
}

impl Clone for Transaction {
    /// A copy of the transaction: the same signatures, and a copy of the
    /// message with the same model.
    fn clone(&self) -> (r: Self)
        ensures
            r.signature_seq() == self.signature_seq(),
            r.message_of().inner() == self.message_of().inner(),
            r.message_of()@ == self.message_of()@,
    {
        proof {
            use_type_invariant(self);
        }
        let signatures = self.signatures.clone();
        assert(signatures@ =~= self.signatures@);
        Transaction { signatures, message: self.message.clone() }
    }
}

impl Transaction {
    /// Every legacy transaction holds a legacy message.
    #[verifier::type_invariant]
    spec fn holds_legacy_message(self) -> bool {
        self.message@.version == MessageVersion::Legacy
    }

    /// The transaction's signatures.
    pub closed spec fn signature_seq(self) -> Seq<Signature> {
        self.signatures@
    }

    /// The transaction's message.
    pub closed spec fn message_of(self) -> TransactionMessage {
        self.message
    }

    /// The legacy transaction with these signatures and this message, or
    /// `None` when the message is not a legacy message.
    pub fn from_parts(signatures: Vec<Signature>, message: TransactionMessage) -> (r: Option<Self>)
        ensures
            r is Some <==> message@.version == MessageVersion::Legacy,
            r matches Some(t) ==> t.signature_seq() == signatures@ && t.message_of() == message,
    {
        if message.version() == MessageVersion::Legacy {
            Some(Transaction { signatures, message })
        } else {
            None
        }
    }

    /// The transaction's signatures.
    pub fn signatures(&self) -> (r: &[Signature])
        ensures
            r@ == self.signature_seq(),
    {
        self.signatures.as_slice()
    }

    /// The transaction's message, a legacy message.
    pub fn message(&self) -> (r: &TransactionMessage)
        ensures
            *r == self.message_of(),
            r@.version == MessageVersion::Legacy,
    {
        proof {
            use_type_invariant(self);
        }
        &self.message
    }
}

/// The versioned transaction with the signatures and message of a legacy one.
pub closed spec fn versioned_from_legacy(transaction: Transaction) -> VersionedTransaction {
    VersionedTransaction { signatures: transaction.signatures, message: transaction.message }
}

impl From<Transaction> for VersionedTransaction {
    fn from(transaction: Transaction) -> (r: Self) {
        VersionedTransaction { signatures: transaction.signatures, message: transaction.message }
    }
}

impl vstd::std_specs::convert::FromSpecImpl<Transaction> for VersionedTransaction {
    open spec fn obeys_from_spec() -> bool {
        true
    }

    open spec fn from_spec(transaction: Transaction) -> Self {
        versioned_from_legacy(transaction)
    }
}

/// Whether `e` is an error that signing reports once the message has enough
/// keys: the keypairs do not match the expected signer keys, or the keypairs
/// themselves fail.
pub open spec fn signing_failure(e: SigningError) -> bool {
    ||| e is TooManySigners
    ||| e is NotEnoughSigners
    ||| e is KeypairPubkeyMismatch
    ||| e matches SigningError::InvalidInput(m) && m@ == "invalid keypairs"@
    ||| e is Signer
}

/// Whether some key in `keys` has the bytes of `key`.
pub open spec fn holds_key(keys: Seq<[u8; 32]>, key: [u8; 32]) -> bool {
    exists|j: int| 0 <= j < keys.len() && keys[j]@ == key@
}

/// Whether two keys have the same bytes.
fn keys_equal(a: &[u8; 32], b: &[u8; 32]) -> (r: bool)
    ensures
        r == (a@ == b@),
{
    let mut i: usize = 0;
    while i < 32
        invariant
            0 <= i <= 32,
            forall|j: int| 0 <= j < i ==> a@[j] == b@[j],
        decreases 32 - i,
    {
        if a[i] != b[i] {
            return false;
        }
        i = i + 1;
    }
    assert(a@ =~= b@);
    true
}

/// For each expected signer key, the position of the first keypair with
/// that key: the order in which the keypairs' signatures must be placed.
/// Fails when there are more or fewer keypairs than expected keys, or when
/// an expected key belongs to no keypair.
pub fn signature_order(expected: &[[u8; 32]], signer_keys: &[[u8; 32]]) -> (r: Result<
    Vec<usize>,
    SigningError,
>)
    ensures
        signer_keys@.len() > expected@.len() ==> r == Err::<Vec<usize>, SigningError>(
            SigningError::TooManySigners,
        ),
        signer_keys@.len() < expected@.len() ==> r == Err::<Vec<usize>, SigningError>(
            SigningError::NotEnoughSigners,
        ),
        signer_keys@.len() == expected@.len() ==> (r is Ok <==> forall|i: int|
            0 <= i < expected@.len() ==> holds_key(signer_keys@, #[trigger] expected@[i])),
        signer_keys@.len() == expected@.len() && r is Err ==> r == Err::<Vec<usize>, SigningError>(
            SigningError::KeypairPubkeyMismatch,
        ),
        r matches Ok(order) ==> {
            &&& order@.len() == expected@.len()
            &&& forall|i: int|
                0 <= i < order@.len() ==> {
                    &&& #[trigger] order@[i] < signer_keys@.len()
                    &&& signer_keys@[order@[i] as int]@ == expected@[i]@
                    &&& forall|j: int| 0 <= j < order@[i] ==> signer_keys@[j]@ != expected@[i]@
                }
        },
{
    if signer_keys.len() > expected.len() {
        return Err(SigningError::TooManySigners);
    }
    if signer_keys.len() < expected.len() {
        return Err(SigningError::NotEnoughSigners);
    }
    let mut order: Vec<usize> = Vec::new();
    let mut i: usize = 0;
    while i < expected.len()
        invariant
            0 <= i <= expected@.len(),
            signer_keys@.len() == expected@.len(),
            order@.len() == i,
            forall|k: int|
                0 <= k < i ==> {
                    &&& #[trigger] order@[k] < signer_keys@.len()
                    &&& signer_keys@[order@[k] as int]@ == expected@[k]@
                    &&& forall|j: int| 0 <= j < order@[k] ==> signer_keys@[j]@ != expected@[k]@
                },
            forall|k: int| 0 <= k < i ==> holds_key(signer_keys@, #[trigger] expected@[k]),
        decreases expected@.len() - i,
    {
        let mut j: usize = 0;
        let mut found = false;
        while j < signer_keys.len()
            invariant_except_break
                !found,
            invariant
                0 <= j <= signer_keys@.len(),
                i < expected@.len(),
                forall|t: int| 0 <= t < j ==> signer_keys@[t]@ != expected@[i as int]@,
            ensures
                j <= signer_keys@.len(),
                found ==> j < signer_keys@.len() && signer_keys@[j as int]@ == expected@[i as int]@,
                forall|t: int| 0 <= t < j ==> signer_keys@[t]@ != expected@[i as int]@,
                !found ==> j == signer_keys@.len(),
            decreases signer_keys@.len() - j,
        {
            if keys_equal(&signer_keys[j], &expected[i]) {
                found = true;
                break;
            }
            j = j + 1;
        }
        if !found {
            assert(!holds_key(signer_keys@, expected@[i as int]));
            return Err(SigningError::KeypairPubkeyMismatch);
        }
        assert(signer_keys@[j as int]@ == expected@[i as int]@);
        order.push(j);
        i = i + 1;
    }
    Ok(order)
}

/// The keypairs' signatures put in signing order: the `i`-th signature is
/// the one at position `order[i]`. Fails when a position is past the end of
/// the signatures.
pub fn place_signatures(order: &[usize], unordered: &[Signature]) -> (r: Result<
    Vec<Signature>,
    SigningError,
>)
    ensures
        r is Ok <==> forall|i: int| 0 <= i < order@.len() ==> #[trigger] order@[i] < unordered@.len(),
        r matches Ok(sigs) ==> sigs@.len() == order@.len() && forall|i: int|
            0 <= i < order@.len() ==> #[trigger] sigs@[i] == unordered@[order@[i] as int],
        r matches Err(e) ==> e matches SigningError::InvalidInput(m) && m@ == "invalid keypairs"@,
{
    let mut sigs: Vec<Signature> = Vec::new();
    let mut i: usize = 0;
    while i < order.len()
        invariant
            0 <= i <= order@.len(),
            sigs@.len() == i,
            forall|k: int| 0 <= k < i ==> #[trigger] order@[k] < unordered@.len(),
            forall|k: int| 0 <= k < i ==> #[trigger] sigs@[k] == unordered@[order@[k] as int],
        decreases order@.len() - i,
    {
        if order[i] >= unordered.len() {
            return Err(SigningError::InvalidInput("invalid keypairs".to_owned()));
        }
        sigs.push(unordered[order[i]]);
        i = i + 1;
    }
    Ok(sigs)
}

impl VersionedTransaction {
    /// The transaction that carries `message` with the keypairs' signatures
    /// `unordered` put in signing order: the `i`-th signature is the one at
    /// position `order[i]`. Fails when a position is past the end of the
    /// signatures.
    pub fn from_signatures_in_order(
        message: TransactionMessage,
        order: &[usize],
        unordered: &[Signature],
    ) -> (r: Result<Self, SigningError>)
        ensures
            r is Ok <==> forall|i: int|
                0 <= i < order@.len() ==> #[trigger] order@[i] < unordered@.len(),
            r matches Ok(tx) ==> {
                &&& tx.message == message
                &&& tx.signatures@.len() == order@.len()
                &&& forall|i: int|
                    0 <= i < order@.len() ==> #[trigger] tx.signatures@[i]
                        == unordered@[order@[i] as int]
            },
            r matches Err(e) ==> e matches SigningError::InvalidInput(m) && m@ == "invalid keypairs"@,
    {
        match place_signatures(order, unordered) {
            Ok(signatures) => Ok(Self { signatures, message }),
            Err(e) => Err(e),
        }
    }

    /// Signs a versioned message and if successful, returns a signed
    /// transaction.
    pub fn try_new<T: solana_signer::signers::Signers + ?Sized>(
        message: TransactionMessage,
        keypairs: &T,
    ) -> (r: Result<Self, SigningError>)
        ensures
            message@.static_account_keys.len() < message@.num_required_signatures <==> (r matches Err(
                SigningError::InvalidInput(m),
            ) && m@ == "invalid message"@),
            r matches Err(e) ==> message@.static_account_keys.len() < message@.num_required_signatures
                || signing_failure(e),
            r matches Err(SigningError::InvalidInput(m)) && m@ == "invalid keypairs"@
                ==> message@.num_required_signatures > 0,
            r matches Ok(tx) ==> tx.message == message,
            r matches Ok(tx) ==> tx.signatures@.len() == message@.num_required_signatures,
            r matches Ok(tx) ==> exists|signer_keys: Seq<[u8; 32]>, unordered: Seq<Signature>|
                signed_in_key_order(
                    tx.message@.static_account_keys.take(
                        tx.message@.num_required_signatures as int,
                    ),
                    signer_keys,
                    unordered,
                    tx.signatures@,
                ),
    {
        proof {
            reveal_strlit("invalid message");
            reveal_strlit("invalid keypairs");
            assert("invalid keypairs"@[8] != "invalid message"@[8]);
        }
        let static_account_keys = message.static_account_keys();
        let num_required = message.num_required_signatures() as usize;
        if static_account_keys.len() < num_required {
            return Err(SigningError::InvalidInput("invalid message".to_owned()));
        }
        let signer_keys = match signer_pubkeys(keypairs) {
            Ok(keys) => keys,
            Err(e) => return Err(SigningError::Signer(e)),
        };
        let expected_signer_keys = vstd::slice::slice_subrange(static_account_keys, 0, num_required);
        let order = match signature_order(expected_signer_keys, signer_keys.as_slice()) {
            Ok(order) => order,
            Err(e) => return Err(e),
        };
        let unordered = match sign_message(keypairs, message.wire()) {
            Ok(sigs) => sigs,
            Err(e) => return Err(SigningError::Signer(e)),
        };
        let ghost expected = message@.static_account_keys.take(num_required as int);
        let r = Self::from_signatures_in_order(message, order.as_slice(), unordered.as_slice());
        proof {
            assert(expected_signer_keys@ =~= expected);
            if r is Ok {
                let tx = r->Ok_0;
                assert forall|i: int| 0 <= i < expected.len() implies signed_in_order_at(
                    expected,
                    signer_keys@,
                    unordered@,
                    tx.signatures@,
                    i,
                ) by {
                    assert(expected[i] == expected_signer_keys@[i]);
                    assert(signed_by_first_holder(
                        expected,
                        signer_keys@,
                        unordered@,
                        tx.signatures@,
                        i,
                        order@[i] as int,
                    ));
                }
                assert(signed_in_key_order(expected, signer_keys@, unordered@, tx.signatures@));
            }
        }
        r
    }

    /// Checks the message and the number of signatures.
    pub fn sanitize(&self) -> (r: Result<(), SanitizeError>)
        ensures
            r == match self.message@.sanitized {
                Err(e) => Err(e),
                Ok(_) => signature_count_check(
                    self.message@.num_required_signatures as nat,
                    self.message@.static_account_keys.len(),
                    self.signatures@.len(),
                ),
            },
    {
        self.message.sanitize()?;
        self.sanitize_signatures()?;
        Ok(())
    }

    /// Checks the number of signatures against the message.
    pub fn sanitize_signatures(&self) -> (r: Result<(), SanitizeError>)
        ensures
            r == signature_count_check(
                self.message@.num_required_signatures as nat,
                self.message@.static_account_keys.len(),
                self.signatures@.len(),
            ),
    {
        Self::sanitize_signatures_inner(
            self.message.num_required_signatures() as usize,
            self.message.static_account_keys().len(),
            self.signatures.len(),
        )
    }

    /// The signature-count check on plain counts.
    pub fn sanitize_signatures_inner(
        num_required_signatures: usize,
        num_static_account_keys: usize,
        num_signatures: usize,
    ) -> (r: Result<(), SanitizeError>)
        ensures
            r == signature_count_check(
                num_required_signatures as nat,
                num_static_account_keys as nat,
                num_signatures as nat,
            ),
    {
        if num_required_signatures > num_signatures {
            return Err(SanitizeError::IndexOutOfBounds);
        }
        if num_required_signatures < num_signatures {
            return Err(SanitizeError::InvalidValue);
        }
        // Signatures are verified before message keys are loaded so all signers
        // must correspond to static account keys.
        if num_signatures > num_static_account_keys {
            return Err(SanitizeError::IndexOutOfBounds);
        }
        Ok(())
    }

    /// Returns the version of the transaction
    pub fn version(&self) -> (r: TransactionVersion)
        ensures
            r == version_of(self.message@.version),
    {
        match self.message.version() {
            MessageVersion::Legacy => TransactionVersion::legacy(),
            MessageVersion::V0 => TransactionVersion::Number(0),
            MessageVersion::V1 => TransactionVersion::Number(1),
        }
    }

    /// Returns a legacy transaction if the transaction message is legacy.
    pub fn into_legacy_transaction(self) -> (r: Option<Transaction>)
        ensures
            r == legacy_transaction_of(self),
            r is Some <==> self.message@.version == MessageVersion::Legacy,
            r matches Some(t) ==> t.signature_seq() == self.signatures@ && t.message_of()
                == self.message,
    {
        match self.message.version() {
            MessageVersion::Legacy => Some(
                Transaction { signatures: self.signatures, message: self.message },
            ),
            _ => None,
        }
    }

    /// Verify the transaction and hash its message
    pub fn verify_and_hash_message(&self) -> (r: Result<[u8; 32], TransactionError>)
        ensures
            match r {
                Ok(hash) => {
                    &&& forall|i: int|
                        0 <= i < verification_results(
                            self.signatures@,
                            self.message@.static_account_keys,
                            self.message@.wire,
                        ).len() ==> #[trigger] verification_results(
                            self.signatures@,
                            self.message@.static_account_keys,
                            self.message@.wire,
                        )[i]
                    &&& hash@ == raw_message_hash(self.message@.wire)
                },
                Err(e) => {
                    &&& e == TransactionError::SignatureFailure
                    &&& exists|i: int|
                        0 <= i < verification_results(
                            self.signatures@,
                            self.message@.static_account_keys,
                            self.message@.wire,
                        ).len() && !#[trigger] verification_results(
                            self.signatures@,
                            self.message@.static_account_keys,
                            self.message@.wire,
                        )[i]
                },
            },
    {
        let message_bytes = self.message.wire();
        let results = self._verify_with_results(message_bytes);
        let mut i: usize = 0;
        while i < results.len()
            invariant
                0 <= i <= results@.len(),
                forall|k: int| 0 <= k < i ==> results@[k],
                results@ == verification_results(
                    self.signatures@,
                    self.message@.static_account_keys,
                    self.message@.wire,
                ),
            decreases results@.len() - i,
        {
            if !results[i] {
                assert(!verification_results(
                    self.signatures@,
                    self.message@.static_account_keys,
                    self.message@.wire,
                )[i as int]);
                return Err(TransactionError::SignatureFailure);
            }
            i = i + 1;
        }
        Ok(hash_raw_message(message_bytes))
    }

    /// Verify the transaction and return a list of verification results
    pub fn verify_with_results(&self) -> (r: Vec<bool>)
        ensures
            r@ == verification_results(
                self.signatures@,
                self.message@.static_account_keys,
                self.message@.wire,
            ),
    {
        self._verify_with_results(self.message.wire())
    }

    fn _verify_with_results(&self, message_bytes: &[u8]) -> (r: Vec<bool>)
        ensures
            r@ == verification_results(
                self.signatures@,
                self.message@.static_account_keys,
                message_bytes@,
            ),
    {
        let keys = self.message.static_account_keys();
        let n = if self.signatures.len() < keys.len() {
            self.signatures.len()
        } else {
            keys.len()
        };
        let mut results: Vec<bool> = Vec::new();
        let mut i: usize = 0;
        while i < n
            invariant
                0 <= i <= n,
                n <= self.signatures@.len(),
                n <= keys@.len(),
                keys@ == self.message@.static_account_keys,
                results@ =~= verification_results(
                    self.signatures@,
                    self.message@.static_account_keys,
                    message_bytes@,
                ).take(i as int),
            decreases n - i,
        {
            results.push(verify_signature(&self.signatures[i], &keys[i], message_bytes));
            i = i + 1;
        }
        results
    }

    /// Returns true if transaction begins with an advance nonce instruction.
    pub fn uses_durable_nonce(&self) -> (r: bool)
        ensures
            r == starts_with_nonce_advance(self.message@),
    {
        let instructions = self.message.instructions();
        if instructions.len() <= NONCED_TX_MARKER_IX_INDEX as usize {
            return false;
        }
        let instruction = &instructions[NONCED_TX_MARKER_IX_INDEX as usize];
        let keys = self.message.static_account_keys();
        let program_index = instruction.program_id_index as usize;
        if program_index >= keys.len() {
            return false;
        }
        is_system_program(&keys[program_index]) && is_advance_nonce_instruction_data(
            instruction.data.as_slice(),
        )
    }
}

/// The signature-count check passes exactly when the transaction carries
/// the required number of signatures and no more than the message's keys.
pub proof fn lemma_signature_count_ok(num_required: nat, num_static_keys: nat, num_signatures: nat)
    ensures
        signature_count_check(num_required, num_static_keys, num_signatures) is Ok <==> (
        num_signatures == num_required && num_signatures <= num_static_keys),
{
}

/// A transaction signed by `try_new` passes the signature-count check: its
/// signatures are as many as required, and no more than the message's keys.
pub proof fn lemma_signed_transaction_passes_count_check(tx: VersionedTransaction)
    requires
        tx.signatures@.len() == tx.message@.num_required_signatures,
        tx.message@.num_required_signatures <= tx.message@.static_account_keys.len(),
    ensures
        signature_count_check(
            tx.message@.num_required_signatures as nat,
            tx.message@.static_account_keys.len(),
            tx.signatures@.len(),
        ) == Ok::<(), SanitizeError>(()),
{
}

/// Each signature is checked, over the whole message, against the key at
/// its position: there is one result for each position that has both a
/// signature and a key, and the result at position `i` is whether the `i`-th
/// signature is a valid Ed25519 signature of all of `message` under the
/// `i`-th key. The message's first byte (its format) is signed and checked
/// like any other.
pub proof fn lemma_every_signature_checked_over_whole_message(
    signatures: Seq<Signature>,
    keys: Seq<[u8; 32]>,
    message: Seq<u8>,
)
    ensures
        verification_results(signatures, keys, message).len() == if signatures.len()
            < keys.len() {
            signatures.len()
        } else {
            keys.len()
        },
        forall|i: int|
            0 <= i < signatures.len() && 0 <= i < keys.len() ==> #[trigger] verification_results(
                signatures,
                keys,
                message,
            )[i] == ed25519_signature_verifies(signatures[i]@, keys[i]@, message),
{
}

/// A transaction passes verification exactly when every signature that has
/// a key at its position is a valid Ed25519 signature of the whole message
/// under that key.
pub proof fn lemma_verification_passes_iff_all_signatures_verify(
    signatures: Seq<Signature>,
    keys: Seq<[u8; 32]>,
    message: Seq<u8>,
)
    ensures
        (forall|i: int|
            0 <= i < verification_results(signatures, keys, message).len()
                ==> #[trigger] verification_results(signatures, keys, message)[i]) <==> (forall|
            i: int,
        |
            0 <= i < signatures.len() && 0 <= i < keys.len() ==> ed25519_signature_verifies(
                #[trigger] signatures[i]@,
                keys[i]@,
                message,
            )),
{
    let r = verification_results(signatures, keys, message);
    if forall|i: int| 0 <= i < r.len() ==> #[trigger] r[i] {
        assert forall|i: int| 0 <= i < signatures.len() && 0 <= i < keys.len() implies ed25519_signature_verifies(
            signatures[i]@,
            keys[i]@,
            message,
        ) by {
            assert(r[i]);
        }
    }
}

/// Durable-nonce detection looks at the first instruction alone, whatever
/// the message's format: a transaction uses a durable nonce exactly when its
/// message has a first instruction whose program index names one of the
/// message's keys, that key is the system program's (32 zero bytes), and
/// the instruction's data starts with `[4, 0, 0, 0]` (`AdvanceNonceAccount`).
pub proof fn lemma_durable_nonce_detection(m: MessageModel)
    ensures
        starts_with_nonce_advance(m) <==> {
            &&& m.instructions.len() > 0
            &&& m.instructions[0].program_id_index < m.static_account_keys.len()
            &&& forall|j: int|
                0 <= j < 32 ==> #[trigger] m.static_account_keys[m.instructions[0].program_id_index as int]@[j]
                    == 0
            &&& m.instructions[0].data.len() >= 4
            &&& m.instructions[0].data[0] == 4
            &&& m.instructions[0].data[1] == 0
            &&& m.instructions[0].data[2] == 0
            &&& m.instructions[0].data[3] == 0
        },
{
    if m.instructions.len() > 0 && m.instructions[0].program_id_index < m.static_account_keys.len() {
        let key = m.static_account_keys[m.instructions[0].program_id_index as int]@;
        if forall|j: int| 0 <= j < 32 ==> #[trigger] key[j] == 0 {
            assert(key =~= system_program_id());
        }
    }
}

/// Durable-nonce detection does not depend on the message's format: two
/// messages with the same keys and instructions are detected alike.
pub proof fn lemma_durable_nonce_ignores_format(m1: MessageModel, m2: MessageModel)
    requires
        m1.static_account_keys == m2.static_account_keys,
        m1.instructions == m2.instructions,
    ensures
        starts_with_nonce_advance(m1) == starts_with_nonce_advance(m2),
{
    lemma_durable_nonce_detection(m1);
    lemma_durable_nonce_detection(m2);
}

/// Signatures are placed by key, not by the order of the keypairs. Take
/// signatures put in key order from some keypairs, and from the same
/// keypairs in another order (`perm` says where each one of the second
/// order stood in the first, its key and its signature moving with it).
/// When keypairs that hold the same key give the same signature (as a
/// deterministic signer does), the placed signatures are the same.
pub proof fn lemma_signatures_independent_of_signer_order(
    expected: Seq<[u8; 32]>,
    signer_keys: Seq<[u8; 32]>,
    unordered: Seq<Signature>,
    sigs: Seq<Signature>,
    perm: Seq<int>,
    permuted_keys: Seq<[u8; 32]>,
    permuted_unordered: Seq<Signature>,
    permuted_sigs: Seq<Signature>,
)
    requires
        signed_in_key_order(expected, signer_keys, unordered, sigs),
        signed_in_key_order(expected, permuted_keys, permuted_unordered, permuted_sigs),
        perm.len() == signer_keys.len(),
        permuted_keys.len() == signer_keys.len(),
        permuted_unordered.len() == unordered.len(),
        unordered.len() == signer_keys.len(),
        forall|j: int| 0 <= j < perm.len() ==> 0 <= #[trigger] perm[j] < signer_keys.len(),
        forall|j: int, t: int| 0 <= j < t < perm.len() ==> perm[j] != perm[t],
        forall|j: int|
            0 <= j < perm.len() ==> {
                &&& #[trigger] permuted_keys[j] == signer_keys[perm[j]]
                &&& permuted_unordered[j] == unordered[perm[j]]
            },
        forall|j: int, t: int|
            0 <= j < signer_keys.len() && 0 <= t < signer_keys.len() && signer_keys[j]@
                == signer_keys[t]@ ==> #[trigger] unordered[j] == #[trigger] unordered[t],
    ensures
        permuted_sigs == sigs,
{
    assert forall|i: int| 0 <= i < sigs.len() implies permuted_sigs[i] == sigs[i] by {
        assert(signed_in_order_at(expected, signer_keys, unordered, sigs, i));
        assert(signed_in_order_at(expected, permuted_keys, permuted_unordered, permuted_sigs, i));
        let j = choose|j: int| signed_by_first_holder(expected, signer_keys, unordered, sigs, i, j);
        let q = choose|q: int|
            signed_by_first_holder(
                expected,
                permuted_keys,
                permuted_unordered,
                permuted_sigs,
                i,
                q,
            );
        let p = perm[q];
        assert(permuted_keys[q] == signer_keys[p]);
        assert(signer_keys[p]@ == signer_keys[j]@);
        assert(unordered[p] == unordered[j]);
    }
    assert(permuted_sigs =~= sigs);
}

/// A legacy transaction turned into a versioned one keeps its signatures
/// and message, has the legacy version, and turns back into the same legacy
/// transaction. Every `Transaction` holds a legacy message; the requirement
/// says so of `t`.
pub proof fn lemma_legacy_roundtrip(t: Transaction)
    requires
        t.message_of()@.version == MessageVersion::Legacy,
    ensures
        versioned_from_legacy(t).signatures@ == t.signature_seq(),
        versioned_from_legacy(t).message == t.message_of(),
        version_of(
            versioned_from_legacy(t).message@.version,
        ) == TransactionVersion::Legacy(Legacy::Legacy),
        legacy_transaction_of(versioned_from_legacy(t)) == Some(t),
{
}

} // verus!
