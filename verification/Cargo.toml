[package]
name = "solana_versioned_tx"
version = "0.1.0"
edition = "2021"
publish = false

[dependencies]
solana-message = { version = "=6.0.0", features = ["wincode", "blake3", "serde"] }
solana-address = "=2.9.0"
solana-sanitize = "=3.0.1"
solana-sdk-ids = "=3.1.0"
solana-signature = { version = "=3.6.0", features = ["verify", "serde"] }
solana-signer = "=4.0.0"
solana-hash = "=4.7.0"
solana-packet = "=4.4.1"
solana-transaction-error = "=4.1.0"
solana-short-vec = { version = "=3.3.0", features = ["wincode"] }
wincode = "=0.6.3"
serde = "=1.0.229"
serde_derive = "=1.0.229"

[dev-dependencies]
solana-keypair = "=4.0.0"
solana-pubkey = "=4.4.0"
solana-instruction = "=4.0.0"
solana-system-interface = { version = "=3.3.0", features = ["wincode"] }
