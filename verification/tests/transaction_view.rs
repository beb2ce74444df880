use solana_message::compiled_instruction::CompiledInstruction;
use solana_message::{Message as LegacyMessage, MessageHeader, VersionedMessage};
use solana_pubkey::Pubkey;
use solana_versioned_tx::message::TransactionMessage;
use solana_versioned_tx::transaction_view::instruction_iterator::UnifiedInstructionsIter;
use solana_versioned_tx::transaction_view::limits::{
    MAX_LEGACY_OR_V0_TRANSACTION_SIZE, MAX_TRANSACTION_SIZE,
};
use solana_versioned_tx::transaction_view::transaction_version::TransactionVersion;

#[test]
fn transaction_version_bytes() {
    assert_eq!(TransactionVersion::default(), TransactionVersion::Legacy);
    assert_eq!(TransactionVersion::Legacy.as_u8(), u8::MAX);
    assert_eq!(TransactionVersion::V0.as_u8(), 0);
    assert_eq!(TransactionVersion::V1.as_u8(), 1);
}

#[test]
fn size_limits() {
    assert_eq!(MAX_TRANSACTION_SIZE, 4096);
    assert_eq!(MAX_LEGACY_OR_V0_TRANSACTION_SIZE, 1232);
}

#[test]
fn instruction_iterator_walks_in_order() {
    let message = VersionedMessage::Legacy(LegacyMessage {
        header: MessageHeader {
            num_required_signatures: 1,
            num_readonly_signed_accounts: 0,
            num_readonly_unsigned_accounts: 0,
        },
        account_keys: vec![Pubkey::new_from_array([1; 32]), Pubkey::new_from_array([2; 32])],
        recent_blockhash: solana_hash::Hash::default(),
        instructions: vec![
            CompiledInstruction { program_id_index: 1, accounts: vec![0], data: vec![1, 2, 3] },
            CompiledInstruction { program_id_index: 0, accounts: vec![], data: vec![] },
            CompiledInstruction { program_id_index: 1, accounts: vec![0, 1], data: vec![9] },
        ],
    });
    let message = TransactionMessage::new(message).unwrap();
    let mut iter = UnifiedInstructionsIter::new(&message);
    assert_eq!(iter.len(), 3);
    assert_eq!(iter.size_hint(), (3, Some(3)));
    assert_eq!(iter.debug_text(), "V1 { remaining: 3 }");
    let first = iter.next().unwrap();
    assert_eq!(first.program_id_index, 1);
    assert_eq!(first.accounts, &[0u8][..]);
    assert_eq!(first.data, &[1u8, 2, 3][..]);
    assert_eq!(iter.len(), 2);
    let second = iter.next().unwrap();
    assert_eq!(second.program_id_index, 0);
    assert!(second.accounts.is_empty() && second.data.is_empty());
    let third = iter.next().unwrap();
    assert_eq!(third.accounts, &[0u8, 1][..]);
    assert_eq!(third.data, &[9u8][..]);
    assert_eq!(iter.len(), 0);
    assert_eq!(iter.size_hint(), (0, Some(0)));
    assert_eq!(iter.debug_text(), "V1 { remaining: 0 }");
    assert!(iter.next().is_none());
    assert!(iter.next().is_none());
    assert_eq!(iter.len(), 0);
}

#[test]
fn debug_text_counts_in_decimal() {
    let message = VersionedMessage::Legacy(LegacyMessage {
        header: MessageHeader {
            num_required_signatures: 1,
            num_readonly_signed_accounts: 0,
            num_readonly_unsigned_accounts: 0,
        },
        account_keys: vec![Pubkey::new_from_array([1; 32])],
        recent_blockhash: solana_hash::Hash::default(),
        instructions: vec![
            CompiledInstruction { program_id_index: 0, accounts: vec![], data: vec![] };
            12
        ],
    });
    let message = TransactionMessage::new(message).unwrap();
    let mut iter = UnifiedInstructionsIter::new(&message);
    assert_eq!(iter.debug_text(), "V1 { remaining: 12 }");
    iter.next();
    iter.next();
    iter.next();
    assert_eq!(iter.debug_text(), "V1 { remaining: 9 }");
}
