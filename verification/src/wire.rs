//! The wire layout of a transaction.
//!
//! Legacy and v0 transactions are written as the number of signatures (a
//! short `u16`), the signatures, then the message. V1 transactions are
//! written as the message, then as many signatures as the message requires,
//! with no count. The first byte tells the two apart: a short `u16` below
//! 128 has its top bit clear, while a v1 message starts with the byte
//! `0x81`.
use crate::error::{DecodeError, EncodeError};
use crate::external::{message_read, read_message};
use crate::message::{message_model, MessageModel, MessageVersion, TransactionMessage};
use crate::short_u16::{
    decode_short_u16, encode_short_u16,
    lemma_short_u16_roundtrip, short_u16_decoding, short_u16_encoding, short_u16_size,
    ShortU16Error,
};
use crate::signature::{
    append_signatures_bytes, lemma_signatures_bytes_injective, signature_views,
    signatures_bytes, signatures_from_bytes, Signature,
};
use crate::versioned::VersionedTransaction;
use vstd::prelude::*;

verus! {

/// Bit of the first byte that marks a versioned message.
pub const MESSAGE_VERSION_PREFIX: u8 = 0x80;

/// First byte of a v1 message.
pub const V1_PREFIX: u8 = 0x81;

/// The bytes of a transaction with these signatures and this message, or
/// `None` when a legacy or v0 transaction has more signatures than its
/// count prefix can hold.
pub open spec fn transaction_encoding(sigs: Seq<Signature>, m: MessageModel) -> Option<Seq<u8>> {
    if m.version == MessageVersion::V1 {
        Some(m.wire + signatures_bytes(sigs))
    } else if sigs.len() > u16::MAX {
        None
    } else {
        Some(short_u16_encoding(sigs.len() as u16) + signatures_bytes(sigs) + m.wire)
    }
}

/// The error reported for a malformed signature count.
pub open spec fn count_error(e: ShortU16Error) -> DecodeError {
    match e {
        ShortU16Error::EndOfInput => DecodeError::EndOfInput,
        ShortU16Error::NonCanonical => DecodeError::InvalidValue("short u16: non-canonical encoding"),
        ShortU16Error::Overflow => DecodeError::LengthEncodingOverflow("u16::MAX"),
    }
}

/// Why bytes do not read as a transaction.
pub enum ReadFailure {
    /// The bytes end before the transaction does.
    EndOfInput,
    /// The signature count is malformed.
    Count(ShortU16Error),
    /// The first byte starts neither a count nor a v1 message.
    BadDiscriminator,
    /// The message reader refuses the bytes of the message.
    MessageUnreadable,
    /// The message has a format that the layout does not allow: a v1 message
    /// after a signature count, or a legacy or v0 message in the v1 layout.
    WrongMessageVersion,
    /// The message read has no encoding.
    MessageUnencodable,
}

/// Where the parts of a transaction lie in bytes that read as one, and
/// what the message reader found.
pub struct ReadLayout {
    /// The number of signatures.
    pub count: nat,
    /// Where the signatures start.
    pub signatures_at: nat,
    /// Where the message starts.
    pub message_at: nat,
    /// How many bytes the message reader took.
    pub message_len: nat,
    /// The message the reader found.
    pub message: solana_message::VersionedMessage,
    /// What the transaction logic reads of that message.
    pub model: MessageModel,
    /// How many bytes the transaction takes.
    pub used: nat,
}

/// What reading a transaction from the front of `bytes` finds. A first byte
/// below `0x80` starts a signature count, then the signatures, then a legacy
/// or v0 message; the byte `0x81` starts a v1 message, followed by as many
/// signatures as it requires; any other first byte is refused. The message
/// is read by the message reader (`message_read`), and must have an
/// encoding.
pub open spec fn read_layout(bytes: Seq<u8>) -> Result<ReadLayout, ReadFailure> {
    if bytes.len() == 0 {
        Err(ReadFailure::EndOfInput)
    } else if bytes[0] < MESSAGE_VERSION_PREFIX {
        match short_u16_decoding(bytes) {
            Err(e) => Err(ReadFailure::Count(e)),
            Ok((n, k)) => {
                let message_at = k + 64 * n;
                if message_at > bytes.len() {
                    Err(ReadFailure::EndOfInput)
                } else {
                    match message_read(bytes.skip(message_at as int)) {
                        None => Err(ReadFailure::MessageUnreadable),
                        Some((message, len)) => match message_model(message) {
                            None => Err(ReadFailure::MessageUnencodable),
                            Some(model) => if model.version == MessageVersion::V1 {
                                Err(ReadFailure::WrongMessageVersion)
                            } else {
                                Ok(
                                    ReadLayout {
                                        count: n as nat,
                                        signatures_at: k,
                                        message_at: message_at as nat,
                                        message_len: len,
                                        message,
                                        model,
                                        used: (message_at + len) as nat,
                                    },
                                )
                            },
                        },
                    }
                }
            },
        }
    } else if bytes[0] == V1_PREFIX {
        match message_read(bytes) {
            None => Err(ReadFailure::MessageUnreadable),
            Some((message, len)) => match message_model(message) {
                None => Err(ReadFailure::MessageUnencodable),
                Some(model) => if model.version != MessageVersion::V1 {
                    Err(ReadFailure::WrongMessageVersion)
                } else if len + 64 * model.num_required_signatures > bytes.len() {
                    Err(ReadFailure::EndOfInput)
                } else {
                    Ok(
                        ReadLayout {
                            count: model.num_required_signatures as nat,
                            signatures_at: len,
                            message_at: 0,
                            message_len: len,
                            message,
                            model,
                            used: (len + 64 * model.num_required_signatures) as nat,
                        },
                    )
                },
            },
        }
    } else {
        Err(ReadFailure::BadDiscriminator)
    }
}

/// Whether `e` is the error reported for `f`.
pub open spec fn reports(e: DecodeError, f: ReadFailure) -> bool {
    match f {
        ReadFailure::EndOfInput => e is EndOfInput,
        ReadFailure::Count(c) => e == count_error(c),
        ReadFailure::BadDiscriminator => e matches DecodeError::Custom(m) && m
            == "invalid transaction discriminator",
        ReadFailure::MessageUnreadable => e is Message,
        ReadFailure::WrongMessageVersion => e matches DecodeError::Custom(m) && m
            == "invalid message version",
        ReadFailure::MessageUnencodable => e is Unencodable,
    }
}

/// Whether `tx`, taking `used` bytes, is what `bytes` hold where `l` says:
/// the signatures are the bytes at their place, and the message is the one
/// the reader found.
pub open spec fn read_gives(bytes: Seq<u8>, l: ReadLayout, tx: VersionedTransaction, used: int) -> bool {
    &&& used == l.used
    &&& tx.signatures@.len() == l.count
    &&& signatures_bytes(tx.signatures@) == bytes.subrange(
        l.signatures_at as int,
        (l.signatures_at + 64 * l.count) as int,
    )
    &&& tx.message.inner() == l.message
    &&& tx.message@ == l.model
}

fn count_error_of(e: ShortU16Error) -> (r: DecodeError)
    ensures
        r == count_error(e),
{
    match e {
        ShortU16Error::EndOfInput => DecodeError::EndOfInput,
        ShortU16Error::NonCanonical => DecodeError::InvalidValue("short u16: non-canonical encoding"),
        ShortU16Error::Overflow => DecodeError::LengthEncodingOverflow("u16::MAX"),
    }
}

impl VersionedTransaction {
    /// The number of bytes the transaction takes on the wire.
    pub fn size_of(&self) -> (r: Result<usize, EncodeError>)
        requires
            64 * self.signatures@.len() + self.message@.wire.len() + 3 <= usize::MAX,
        ensures
            match transaction_encoding(self.signatures@, self.message@) {
                Some(e) => r matches Ok(n) && n == e.len(),
                None => r matches Err(EncodeError::LengthEncodingOverflow(m)) && m == "u16::MAX",
            },
    {
        let n = self.signatures.len();
        let message_size = self.message.wire().len();
        match self.message.version() {
            MessageVersion::V1 => Ok(message_size + n * 64),
            _ => {
                if n > 0xffff {
                    return Err(EncodeError::LengthEncodingOverflow("u16::MAX"));
                }
                Ok(short_u16_size(n as u16) + n * 64 + message_size)
            },
        }
    }

    /// Writes the transaction to the end of `out`. On error nothing is
    /// written.
    pub fn write(&self, out: &mut Vec<u8>) -> (r: Result<(), EncodeError>)
        ensures
            match transaction_encoding(self.signatures@, self.message@) {
                Some(e) => r is Ok && final(out)@ == old(out)@ + e,
                None => {
                    &&& r matches Err(EncodeError::LengthEncodingOverflow(m)) && m == "u16::MAX"
                    &&& final(out)@ == old(out)@
                },
            },
    {
        let ghost start = out@;
        match self.message.version() {
            MessageVersion::V1 => {
                out.extend_from_slice(self.message.wire());
                append_signatures_bytes(self.signatures.as_slice(), out);
                assert(out@ =~= start + (self.message@.wire + signatures_bytes(self.signatures@)));
            },
            _ => {
                let n = self.signatures.len();
                if n > 0xffff {
                    return Err(EncodeError::LengthEncodingOverflow("u16::MAX"));
                }
                encode_short_u16(n as u16, out);
                append_signatures_bytes(self.signatures.as_slice(), out);
                out.extend_from_slice(self.message.wire());
                assert(out@ =~= start + (short_u16_encoding(n as u16) + signatures_bytes(
                    self.signatures@,
                ) + self.message@.wire));
            },
        }
        Ok(())
    }

    /// Reads a transaction from the front of `bytes`; returns it with the
    /// number of bytes it took.
    ///
    /// The message itself is read by `solana_message`.
    pub fn read(bytes: &[u8]) -> (r: Result<(VersionedTransaction, usize), DecodeError>)
        ensures
            match read_layout(bytes@) {
                Ok(l) => r matches Ok((tx, used)) && read_gives(bytes@, l, tx, used as int),
                Err(f) => r matches Err(e) && reports(e, f),
            },
    {
        if bytes.len() == 0 {
            return Err(DecodeError::EndOfInput);
        }
        let discriminator = bytes[0];
        if discriminator < MESSAGE_VERSION_PREFIX {
            // Legacy or v0: count, signatures, message.
            let (n, k) = match decode_short_u16(bytes) {
                Ok(x) => x,
                Err(e) => return Err(count_error_of(e)),
            };
            let signatures = match signatures_from_bytes(bytes, k, n as usize) {
                Some(s) => s,
                None => return Err(DecodeError::EndOfInput),
            };
            let start = k + 64 * (n as usize);
            let rest = vstd::slice::slice_subrange(bytes, start, bytes.len());
            assert(rest@ =~= bytes@.skip(start as int));
            let (inner, left) = match read_message(rest) {
                Ok(x) => x,
                Err(e) => return Err(DecodeError::Message(e)),
            };
            let message = match TransactionMessage::from_message(inner) {
                Ok(m) => m,
                Err(e) => return Err(DecodeError::Unencodable(e)),
            };
            if message.version() == MessageVersion::V1 {
                return Err(DecodeError::Custom("invalid message version"));
            }
            let used = bytes.len() - left;
            proof {
                assert(bytes@.skip(start as int) =~= rest@);
            }
            Ok((VersionedTransaction { signatures, message }, used))
        } else if discriminator == V1_PREFIX {
            // V1: message, then its required signatures.
            let (inner, left) = match read_message(bytes) {
                Ok(x) => x,
                Err(e) => return Err(DecodeError::Message(e)),
            };
            let message = match TransactionMessage::from_message(inner) {
                Ok(m) => m,
                Err(e) => return Err(DecodeError::Unencodable(e)),
            };
            if message.version() != MessageVersion::V1 {
                return Err(DecodeError::Custom("invalid message version"));
            }
            let message_len = bytes.len() - left;
            let n = message.num_required_signatures() as usize;
            let signatures = match signatures_from_bytes(bytes, message_len, n) {
                Some(s) => s,
                None => return Err(DecodeError::EndOfInput),
            };
            let used = message_len + 64 * n;
            Ok((VersionedTransaction { signatures, message }, used))
        } else {
            Err(DecodeError::Custom("invalid transaction discriminator"))
        }
    }
}

/// The number of bytes of a transaction with `count` signatures and the
/// message `m`: the message and 64 bytes per signature, and for legacy and
/// v0 transactions one to three bytes of count before them (`None` past
/// `u16::MAX` signatures).
pub open spec fn encoded_size(count: nat, m: MessageModel) -> Option<nat> {
    if m.version == MessageVersion::V1 {
        Some(m.wire.len() + 64 * count)
    } else if count > u16::MAX {
        None
    } else {
        let count_len: nat = if count < 0x80 {
            1
        } else if count < 0x4000 {
            2
        } else {
            3
        };
        Some(count_len + 64 * count + m.wire.len())
    }
}

/// `size_of` reports the number of bytes that `write` appends: a
/// transaction has an encoding exactly when its size is defined, and the
/// encoding has that size.
pub proof fn lemma_size_of_is_written_length(sigs: Seq<Signature>, m: MessageModel)
    ensures
        transaction_encoding(sigs, m) is Some <==> encoded_size(sigs.len(), m) is Some,
        transaction_encoding(sigs, m) matches Some(e) ==> e.len() == encoded_size(
            sigs.len(),
            m,
        ).unwrap(),
{
    assert(signatures_bytes(sigs).len() == 64 * sigs.len());
}

/// The v1 half of `lemma_encoding_unambiguous`.
proof fn lemma_v1_encoding_unambiguous(
    sigs: Seq<Signature>,
    m: MessageModel,
    read_sigs: Seq<Signature>,
    read_m: MessageModel,
    b: Seq<u8>,
    used: int,
)
    requires
        m.version == MessageVersion::V1,
        read_m.version == MessageVersion::V1,
        b.take((m.wire + signatures_bytes(sigs)).len() as int) == m.wire + signatures_bytes(sigs),
        (m.wire + signatures_bytes(sigs)).len() <= b.len(),
        0 <= used <= b.len(),
        b.take(used) == read_m.wire + signatures_bytes(read_sigs),
        read_m.wire.len() == m.wire.len(),
        read_sigs.len() == sigs.len(),
    ensures
        signature_views(read_sigs) == signature_views(sigs),
        read_m.wire == m.wire,
        used == (m.wire + signatures_bytes(sigs)).len(),
{
    let e = m.wire + signatures_bytes(sigs);
    let w = m.wire.len() as int;
    let n = 64 * sigs.len();
    assert(signatures_bytes(read_sigs).len() == 64 * read_sigs.len());
    assert(signatures_bytes(sigs).len() == 64 * sigs.len());
    assert(b.take(used).len() == used);
    assert(used == w + n);
    assert(read_m.wire =~= b.take(used).take(w));
    assert(m.wire =~= e.take(w));
    assert(b.take(used).take(w) =~= b.take(e.len() as int).take(w));
    assert(signatures_bytes(read_sigs) =~= b.take(used).skip(w));
    assert(signatures_bytes(sigs) =~= e.skip(w));
    assert(b.take(used).skip(w) =~= b.take(e.len() as int).skip(w));
    lemma_signatures_bytes_injective(read_sigs, sigs);
}

/// The legacy and v0 half of `lemma_encoding_unambiguous`.
proof fn lemma_prefixed_encoding_unambiguous(
    sigs: Seq<Signature>,
    m: MessageModel,
    read_sigs: Seq<Signature>,
    read_m: MessageModel,
    b: Seq<u8>,
    used: int,
)
    requires
        sigs.len() <= u16::MAX,
        read_sigs.len() <= u16::MAX,
        b.take(
            (short_u16_encoding(sigs.len() as u16) + signatures_bytes(sigs) + m.wire).len() as int,
        ) == short_u16_encoding(sigs.len() as u16) + signatures_bytes(sigs) + m.wire,
        (short_u16_encoding(sigs.len() as u16) + signatures_bytes(sigs) + m.wire).len() <= b.len(),
        0 <= used <= b.len(),
        b.take(used) == short_u16_encoding(read_sigs.len() as u16) + signatures_bytes(read_sigs)
            + read_m.wire,
        read_m.wire.len() == m.wire.len(),
    ensures
        signature_views(read_sigs) == signature_views(sigs),
        read_m.wire == m.wire,
        used == (short_u16_encoding(sigs.len() as u16) + signatures_bytes(sigs) + m.wire).len(),
{
    let n = sigs.len() as u16;
    let n2 = read_sigs.len() as u16;
    let c = short_u16_encoding(n);
    let c2 = short_u16_encoding(n2);
    let e = c + signatures_bytes(sigs) + m.wire;
    let e2 = b.take(used);
    // Both counts decode from the front of the same bytes.
    let r1 = b.skip(e.len() as int);
    assert(b =~= b.take(e.len() as int) + r1);
    assert(b =~= e + r1);
    assert(e + r1 =~= c + (signatures_bytes(sigs) + m.wire + r1));
    lemma_short_u16_roundtrip(n, signatures_bytes(sigs) + m.wire + r1);
    let r2 = b.skip(used);
    assert(b =~= b.take(used) + r2);
    assert(b =~= e2 + r2);
    assert(e2 + r2 =~= c2 + (signatures_bytes(read_sigs) + read_m.wire + r2));
    lemma_short_u16_roundtrip(n2, signatures_bytes(read_sigs) + read_m.wire + r2);
    assert(n == n2);
    let k = c.len() as int;
    let s = 64 * sigs.len();
    assert(signatures_bytes(read_sigs) =~= b.subrange(k, k + s));
    assert(signatures_bytes(sigs) =~= b.subrange(k, k + s));
    lemma_signatures_bytes_injective(read_sigs, sigs);
    assert(read_m.wire =~= b.subrange(k + s, k + s + m.wire.len()));
    assert(m.wire =~= b.subrange(k + s, k + s + m.wire.len()));
}

/// Encodings are unambiguous: when the encoding of one transaction is read
/// at the front of the encoding of another (with anything after it), and the
/// two agree on the layout and on where the message ends, they agree on the
/// signatures, on the message bytes, and on the length. For v1 transactions,
/// whose signature count is not written, they must also agree on it.
pub proof fn lemma_encoding_unambiguous(
    sigs: Seq<Signature>,
    m: MessageModel,
    read_sigs: Seq<Signature>,
    read_m: MessageModel,
    rest: Seq<u8>,
    used: int,
)
    requires
        transaction_encoding(sigs, m) is Some,
        0 <= used <= transaction_encoding(sigs, m).unwrap().len() + rest.len(),
        transaction_encoding(read_sigs, read_m) == Some(
            (transaction_encoding(sigs, m).unwrap() + rest).take(used),
        ),
        (m.version == MessageVersion::V1) == (read_m.version == MessageVersion::V1),
        read_m.wire.len() == m.wire.len(),
        m.version == MessageVersion::V1 ==> read_sigs.len() == sigs.len(),
    ensures
        signature_views(read_sigs) == signature_views(sigs),
        read_m.wire == m.wire,
        used == transaction_encoding(sigs, m).unwrap().len(),
{
    let e = transaction_encoding(sigs, m).unwrap();
    let b = e + rest;
    assert(b.take(e.len() as int) =~= e);
    if m.version == MessageVersion::V1 {
        lemma_v1_encoding_unambiguous(sigs, m, read_sigs, read_m, b, used);
    } else {
        lemma_prefixed_encoding_unambiguous(sigs, m, read_sigs, read_m, b, used);
    }
}

/// The bytes that follow a transaction's message where it is written: its
/// signatures and then `rest` for a v1 transaction, `rest` alone otherwise.
pub open spec fn after_message(sigs: Seq<Signature>, m: MessageModel, rest: Seq<u8>) -> Seq<u8> {
    if m.version == MessageVersion::V1 {
        signatures_bytes(sigs) + rest
    } else {
        rest
    }
}

/// Reading back what was written. Take the bytes of a transaction whose
/// message `msg` has the model `m`, followed by anything, where the message
/// reader, on the bytes from the message on, finds `msg` again and takes
/// exactly its encoding. Then reading finds the transaction: its signatures
/// at their place, the same message with the same model, and exactly the
/// written length. Legacy and v0 transactions must have fewer than 128
/// signatures: with more, the first byte of the count has its top bit set
/// and is taken for the first byte of a versioned message. A v1 transaction
/// must carry the signatures its message requires, and its message starts
/// with `0x81`.
pub proof fn lemma_read_of_written(
    sigs: Seq<Signature>,
    msg: solana_message::VersionedMessage,
    m: MessageModel,
    rest: Seq<u8>,
)
    requires
        message_model(msg) == Some(m),
        transaction_encoding(sigs, m) is Some,
        m.version != MessageVersion::V1 ==> sigs.len() < 128,
        m.version == MessageVersion::V1 ==> {
            &&& sigs.len() == m.num_required_signatures
            &&& m.wire.len() > 0
            &&& m.wire[0] == V1_PREFIX
        },
        message_read(m.wire + after_message(sigs, m, rest)) == Some((msg, m.wire.len())),
    ensures
        ({
            let b = transaction_encoding(sigs, m).unwrap() + rest;
            read_layout(b) matches Ok(l) && {
                &&& l.used == transaction_encoding(sigs, m).unwrap().len()
                &&& l.count == sigs.len()
                &&& b.subrange(l.signatures_at as int, (l.signatures_at + 64 * l.count) as int)
                    == signatures_bytes(sigs)
                &&& b.subrange(l.message_at as int, (l.message_at + l.message_len) as int) == m.wire
                &&& l.message == msg
                &&& l.model == m
            }
        }),
{
    let e = transaction_encoding(sigs, m).unwrap();
    let b = e + rest;
    let sb = signatures_bytes(sigs);
    let w = m.wire;
    assert(sb.len() == 64 * sigs.len());
    if m.version != MessageVersion::V1 {
        // A count below 128 is a single byte with its top bit clear.
        let n = sigs.len() as u16;
        let c = short_u16_encoding(n);
        assert(c == seq![n as u8]);
        assert(b =~= c + (sb + w + rest));
        lemma_short_u16_roundtrip(n, sb + w + rest);
        assert(b[0] == n as u8);
        let message_at = 1 + 64 * sigs.len();
        assert(b.skip(message_at as int) =~= w + rest);
        assert(b.subrange(1, message_at as int) =~= sb);
        assert(b.subrange(message_at as int, (message_at + w.len()) as int) =~= w);
    } else {
        assert(b =~= w + (sb + rest));
        assert(b[0] == V1_PREFIX);
        assert(b.subrange(0, w.len() as int) =~= w);
        assert(b.subrange(w.len() as int, (w.len() + 64 * sigs.len()) as int) =~= sb);
    }
}

} // verus!
