# solana_versioned_tx

Versioned Solana transactions with their logic proved by Verus.

- `src/versioned.rs`: `VersionedTransaction` and `Transaction`; signing
  order (`try_new`), signature-count checks (`sanitize`), version selection,
  legacy conversion, signature verification and message hashing, and
  durable-nonce detection.
- `src/wire.rs`: the transaction wire layout (`size_of`, `write`, `read`)
  and its laws: encodings are unambiguous, `size_of` counts what `write`
  writes, and written transactions read back (the same signatures and the
  same message with the same model) whenever `solana_message`'s reader reads
  the written message back.
- `src/short_u16.rs`: the compact `u16` signature count.
- `src/signature.rs`: signatures as 64 bytes and their byte image.
- `src/message.rs`: a `solana_message::VersionedMessage` with its encoding
  and the parts the transaction logic reads held as plain values.
- `src/transaction_view/`: the one-byte transaction version, size limits and
  an instruction iterator.
- `src/external.rs`: the trusted wrappers around `solana_message`,
  `solana_signature`, `solana_signer`, `solana_sdk_ids` and `wincode`.
- `app/lib.rs`: serde forms of the version and of transactions, and the
  debug form of the instruction iterator.
