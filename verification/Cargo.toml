[package]
name = "paybridge"
version = "0.1.0"
edition = "2021"
publish = false

[dependencies]
nostr = { version = "=0.45.5", features = ["nip04"] }
nostr-sdk = "=0.45.4"
serde = { version = "*", features = ["derive"] }
serde_json = "*"
reqwest = { version = "*", features = ["json"] }
tokio = { version = "*", features = ["macros", "rt-multi-thread"] }
clap = { version = "*", features = ["derive"] }
dotenv = "*"
log = "*"
stderrlog = "*"
bip39 = { version = "=3.0.0", features = ["rand"] }
