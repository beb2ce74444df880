use solana_message::compiled_instruction::CompiledInstruction;
use solana_message::v0::{Message as MessageV0, MessageAddressTableLookup};
use solana_message::v1::{
    Message as MessageV1, TransactionConfig, WireInstructionHeader, FIXED_HEADER_SIZE,
    MAX_TRANSACTION_SIZE, SIGNATURE_SIZE,
};
use solana_message::{Message as LegacyMessage, MessageHeader, VersionedMessage};
use solana_pubkey::Pubkey;
use solana_short_vec::ShortU16;
use solana_versioned_tx::error::{DecodeError, EncodeError};
use solana_versioned_tx::message::TransactionMessage;
use solana_versioned_tx::short_u16::{
    decode_short_u16, encode_short_u16, short_u16_size, ShortU16Error,
};
use solana_versioned_tx::signature::{Signature, SIGNATURE_BYTES};
use solana_versioned_tx::versioned::VersionedTransaction;
use solana_versioned_tx::wire::{MESSAGE_VERSION_PREFIX, V1_PREFIX};

/// A small deterministic generator standing in for random inputs.
struct Gen(u64);

impl Gen {
    fn next(&mut self) -> u64 {
        self.0 ^= self.0 << 13;
        self.0 ^= self.0 >> 7;
        self.0 ^= self.0 << 17;
        self.0
    }
    fn below(&mut self, n: u64) -> u64 {
        self.next() % n
    }
    fn bytes(&mut self, max_len: u64) -> Vec<u8> {
        let len = self.below(max_len + 1);
        (0..len).map(|_| self.next() as u8).collect()
    }
    fn array<const N: usize>(&mut self) -> [u8; N] {
        let mut a = [0u8; N];
        for b in a.iter_mut() {
            *b = self.next() as u8;
        }
        a
    }
    fn header(&mut self) -> MessageHeader {
        MessageHeader {
            num_required_signatures: self.below(128) as u8,
            num_readonly_signed_accounts: self.next() as u8,
            num_readonly_unsigned_accounts: self.next() as u8,
        }
    }
    fn instruction(&mut self) -> CompiledInstruction {
        CompiledInstruction::new_from_raw_parts(self.next() as u8, self.bytes(128), self.bytes(128))
    }
    fn keys(&mut self, max: u64) -> Vec<Pubkey> {
        let n = self.below(max + 1);
        (0..n).map(|_| Pubkey::new_from_array(self.array())).collect()
    }
    fn message(&mut self) -> VersionedMessage {
        if self.below(2) == 0 {
            let n = self.below(9);
            VersionedMessage::Legacy(LegacyMessage {
                header: self.header(),
                account_keys: self.keys(8),
                recent_blockhash: solana_hash::Hash::new_from_array(self.array()),
                instructions: (0..n).map(|_| self.instruction()).collect(),
            })
        } else {
            let n = self.below(5);
            let l = self.below(5);
            VersionedMessage::V0(MessageV0 {
                header: self.header(),
                account_keys: self.keys(8),
                recent_blockhash: solana_hash::Hash::new_from_array(self.array()),
                instructions: (0..n).map(|_| self.instruction()).collect(),
                address_table_lookups: (0..l)
                    .map(|_| MessageAddressTableLookup {
                        account_key: Pubkey::new_from_array(self.array()),
                        writable_indexes: self.bytes(128),
                        readonly_indexes: self.bytes(128),
                    })
                    .collect(),
            })
        }
    }
    fn signatures(&mut self) -> Vec<Signature> {
        let n = self.below(9);
        (0..n).map(|_| Signature::new(self.array())).collect()
    }
}

fn written(tx: &VersionedTransaction) -> Vec<u8> {
    let mut out = Vec::new();
    tx.write(&mut out).unwrap();
    out
}

#[test]
fn versioned_transaction_wincode_bincode_roundtrip() {
    let mut g = Gen(0x9e37_79b9_7f4a_7c15);
    for _ in 0..256 {
        let message = g.message();
        let signatures = g.signatures();
        // The reference layout, built from the outside encoders: a short
        // u16 count, the signatures, then the message.
        let mut expected = wincode::serialize(&ShortU16(signatures.len() as u16)).unwrap();
        for s in &signatures {
            expected.extend_from_slice(&s.to_bytes());
        }
        expected.extend_from_slice(&wincode::serialize(&message).unwrap());

        let tx = VersionedTransaction {
            message: TransactionMessage::new(message).unwrap(),
            signatures,
        };
        let serialized = written(&tx);
        assert_eq!(serialized, expected);
        assert_eq!(tx.size_of().unwrap(), serialized.len());

        let (deserialized, used) = VersionedTransaction::read(&serialized).unwrap();
        assert_eq!(used, serialized.len());
        assert_eq!(&deserialized.message, &tx.message);
        assert_eq!(&deserialized.signatures, &tx.signatures);
        assert_eq!(deserialized, tx);
    }
}

#[test]
fn test_v1_message_in_legacy_transaction() {
    let malformed_input: &[u8] = &[
        0x00,                   // 0 signatures via ShortU16 -> takes Legacy/V0 path
        0x81,                   // V1 message prefix
        // V1 LegacyHeader (3 bytes)
        0x01,                   // num_required_signatures = 1
        0x00,                   // num_readonly_signed_accounts = 0
        0x00,                   // num_readonly_unsigned_accounts = 0
        // TransactionConfigMask (4 bytes, little-endian)
        0x00, 0x00, 0x00, 0x00,
        // LifetimeSpecifier / blockhash (32 bytes)
        0x00, 0x00, 0x00, 0x00, 0x00, 0x00, 0x00, 0x00,
        0x00, 0x00, 0x00, 0x00, 0x00, 0x00, 0x00, 0x00,
        0x00, 0x00, 0x00, 0x00, 0x00, 0x00, 0x00, 0x00,
        0x00, 0x00, 0x00, 0x00, 0x00, 0x00, 0x00, 0x00,
        // NumInstructions (1 byte)
        0x00,
        // NumAddresses (1 byte)
        0x01,
        // 1 address (32 bytes)
        0x00, 0x00, 0x00, 0x00, 0x00, 0x00, 0x00, 0x00,
        0x00, 0x00, 0x00, 0x00, 0x00, 0x00, 0x00, 0x00,
        0x00, 0x00, 0x00, 0x00, 0x00, 0x00, 0x00, 0x00,
        0x00, 0x00, 0x00, 0x00, 0x00, 0x00, 0x00, 0x00,
    ];

    let result = VersionedTransaction::read(malformed_input);

    if let Err(DecodeError::Custom(msg)) = result {
        assert_eq!(msg, "invalid message version");
    } else {
        panic!("Deserialization should not succeed with a V1 message in Legacy/V0 format")
    }
}

fn v1_transaction(delta: usize) -> VersionedTransaction {
    const NUM_SIGNATURES: usize = 1;
    const NUM_ADDRESSES: usize = 2;
    const NUM_INSTRUCTION_ACCOUNTS: usize = 1;
    let overhead = 1
        + (NUM_SIGNATURES * SIGNATURE_SIZE)
        + FIXED_HEADER_SIZE
        + (NUM_ADDRESSES * solana_address::ADDRESS_BYTES)
        + std::mem::size_of::<WireInstructionHeader>()
        + NUM_INSTRUCTION_ACCOUNTS;
    let max_data_size = MAX_TRANSACTION_SIZE - overhead + delta;
    let message = MessageV1 {
        header: MessageHeader {
            num_required_signatures: NUM_SIGNATURES as u8,
            num_readonly_signed_accounts: 0,
            num_readonly_unsigned_accounts: 0,
        },
        config: TransactionConfig::default(),
        account_keys: vec![Pubkey::new_from_array([1; 32]), Pubkey::new_from_array([2; 32])],
        lifetime_specifier: solana_hash::Hash::new_from_array([3; 32]),
        instructions: vec![CompiledInstruction {
            program_id_index: 1,
            accounts: vec![0],
            data: vec![0u8; max_data_size],
        }],
    };
    VersionedTransaction {
        message: TransactionMessage::new(VersionedMessage::V1(message)).unwrap(),
        signatures: vec![Signature::default()],
    }
}

#[test]
fn v1_transaction_serialization_at_max_size() {
    let v1_tx = v1_transaction(0);
    let serialized = written(&v1_tx);
    assert_eq!(serialized.len(), MAX_TRANSACTION_SIZE);
    assert_eq!(serialized[0], V1_PREFIX);
    let (deserialized, used) = VersionedTransaction::read(&serialized).unwrap();
    assert_eq!(used, serialized.len());
    assert_eq!(v1_tx, deserialized);
}

#[test]
fn v1_transaction_serialization_over_by_one() {
    let v1_tx = v1_transaction(1);
    let serialized = written(&v1_tx);
    assert_eq!(serialized.len(), MAX_TRANSACTION_SIZE + 1);
    assert_eq!(v1_tx.size_of().unwrap(), MAX_TRANSACTION_SIZE + 1);
    let (deserialized, _) = VersionedTransaction::read(&serialized).unwrap();
    assert_eq!(v1_tx, deserialized);
}

#[test]
fn v1_layout_is_message_then_signatures() {
    let tx = v1_transaction(0);
    let serialized = written(&tx);
    let wire = tx.message.wire();
    assert_eq!(&serialized[..wire.len()], wire);
    assert_eq!(&serialized[wire.len()..], &[0u8; 64][..]);
    // the signatures are required: cut one byte off and the read fails
    assert!(matches!(
        VersionedTransaction::read(&serialized[..serialized.len() - 1]),
        Err(DecodeError::EndOfInput)
    ));
}

#[test]
fn read_rejects_empty_and_unknown_discriminators() {
    assert!(matches!(VersionedTransaction::read(&[]), Err(DecodeError::EndOfInput)));
    for first in [0x80u8, 0x82, 0xff] {
        match VersionedTransaction::read(&[first, 0, 0, 0]) {
            Err(DecodeError::Custom(msg)) => assert_eq!(msg, "invalid transaction discriminator"),
            other => panic!("unexpected {:?}", other.map(|(_, n)| n)),
        }
    }
}

#[test]
fn read_reports_missing_signatures() {
    // two signatures announced, one present
    let mut bytes = vec![2u8];
    bytes.extend_from_slice(&[5u8; 64]);
    assert!(matches!(VersionedTransaction::read(&bytes), Err(DecodeError::EndOfInput)));
}

#[test]
fn read_reports_message_errors() {
    // no signatures, then a truncated legacy message
    let bytes = [0u8, 1, 0];
    assert!(matches!(VersionedTransaction::read(&bytes), Err(DecodeError::Message(_))));
}

#[test]
fn read_stops_at_the_end_of_the_transaction() {
    let mut g = Gen(42);
    let tx = VersionedTransaction {
        message: TransactionMessage::new(g.message()).unwrap(),
        signatures: g.signatures(),
    };
    let mut bytes = written(&tx);
    let len = bytes.len();
    bytes.extend_from_slice(&[0xAA, 0xBB, 0xCC]);
    let (back, used) = VersionedTransaction::read(&bytes).unwrap();
    assert_eq!(used, len);
    assert_eq!(back, tx);
}

#[test]
fn write_refuses_too_many_signatures() {
    let tx = VersionedTransaction {
        message: TransactionMessage::new(VersionedMessage::Legacy(LegacyMessage::default()))
            .unwrap(),
        signatures: vec![Signature::default(); 65536],
    };
    let mut out = vec![9u8];
    match tx.write(&mut out) {
        Err(EncodeError::LengthEncodingOverflow(msg)) => assert_eq!(msg, "u16::MAX"),
        other => panic!("unexpected {:?}", other),
    }
    assert_eq!(out, vec![9u8]);
    assert!(matches!(tx.size_of(), Err(EncodeError::LengthEncodingOverflow("u16::MAX"))));
}

#[test]
fn many_signatures_use_a_longer_count() {
    let tx = VersionedTransaction {
        message: TransactionMessage::new(VersionedMessage::Legacy(LegacyMessage::default()))
            .unwrap(),
        signatures: vec![Signature::default(); 200],
    };
    let bytes = written(&tx);
    assert_eq!(&bytes[..2], &[0xC8, 0x01]);
    assert_eq!(bytes.len(), 2 + 200 * 64 + tx.message.wire().len());
    assert_eq!(tx.size_of().unwrap(), bytes.len());
    // 200 signatures: the first count byte has its top bit set, so reading
    // takes it for a message discriminator
    match VersionedTransaction::read(&bytes) {
        Err(DecodeError::Custom(msg)) => assert_eq!(msg, "invalid transaction discriminator"),
        other => panic!("unexpected {:?}", other.map(|(_, n)| n)),
    }
}

#[test]
fn short_u16_matches_outside_encoder() {
    for n in [0u16, 1, 0x7f, 0x80, 0xff, 0x100, 0x3fff, 0x4000, 0x4001, 0xfffe, 0xffff] {
        let mut ours = Vec::new();
        encode_short_u16(n, &mut ours);
        let theirs = wincode::serialize(&ShortU16(n)).unwrap();
        assert_eq!(ours, theirs);
        assert_eq!(short_u16_size(n), theirs.len());
        let mut with_rest = ours.clone();
        with_rest.extend_from_slice(&[0xff, 0x00]);
        assert_eq!(decode_short_u16(&with_rest), Ok((n, ours.len())));
        assert_eq!(solana_short_vec::decode_shortu16_len(&with_rest), Ok((n as usize, ours.len())));
    }
    for n in 0..=u16::MAX {
        let mut ours = Vec::new();
        encode_short_u16(n, &mut ours);
        assert_eq!(decode_short_u16(&ours), Ok((n, ours.len())));
    }
}

#[test]
fn short_u16_exact_values() {
    let mut out = Vec::new();
    encode_short_u16(0x80, &mut out);
    assert_eq!(out, vec![0x80, 0x01]);
    let mut out = Vec::new();
    encode_short_u16(0xffff, &mut out);
    assert_eq!(out, vec![0xff, 0xff, 0x03]);
}

#[test]
fn short_u16_rejects_malformed() {
    assert_eq!(decode_short_u16(&[]), Err(ShortU16Error::EndOfInput));
    assert_eq!(decode_short_u16(&[0x80]), Err(ShortU16Error::EndOfInput));
    assert_eq!(decode_short_u16(&[0x80, 0x80]), Err(ShortU16Error::EndOfInput));
    assert_eq!(decode_short_u16(&[0x80, 0x00]), Err(ShortU16Error::NonCanonical));
    assert_eq!(decode_short_u16(&[0x80, 0x80, 0x00]), Err(ShortU16Error::NonCanonical));
    assert_eq!(decode_short_u16(&[0x80, 0x80, 0x04]), Err(ShortU16Error::Overflow));
    for bad in [&[0x80u8, 0x00][..], &[0x80, 0x80, 0x00], &[0x80, 0x80, 0x04]] {
        assert!(solana_short_vec::decode_shortu16_len(bad).is_err());
    }
}

#[test]
fn count_errors_are_reported_when_reading() {
    // a canonical count needs no continuation byte of zero; here it is cut
    // short after the first byte
    assert!(matches!(VersionedTransaction::read(&[0x05]), Err(DecodeError::EndOfInput)));
}

#[test]
fn wire_constants_match_outside_crates() {
    assert_eq!(MESSAGE_VERSION_PREFIX, solana_message::MESSAGE_VERSION_PREFIX);
    assert_eq!(V1_PREFIX, solana_message::v1::V1_PREFIX);
    assert_eq!(SIGNATURE_BYTES, solana_signature::SIGNATURE_BYTES);
    assert_eq!(SIGNATURE_BYTES, SIGNATURE_SIZE);
}

#[test]
fn size_of_is_the_written_length() {
    let mut g = Gen(7);
    for _ in 0..20 {
        let tx = VersionedTransaction {
            message: TransactionMessage::new(g.message()).unwrap(),
            signatures: g.signatures(),
        };
        let mut out = vec![1u8, 2, 3];
        tx.write(&mut out).unwrap();
        assert_eq!(tx.size_of().unwrap(), out.len() - 3);
        assert_eq!(&out[..3], &[1u8, 2, 3]);
    }
    let v1 = v1_transaction(0);
    assert_eq!(v1.size_of().unwrap(), written(&v1).len());
}
