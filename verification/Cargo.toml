[package]
name = "bot"
version = "0.1.0"
edition = "2021"
publish = false

[dependencies]
rust_decimal = { version = "=1.43.0", features = ["maths"] }
lb_clmm = "=0.1.1"
anchor-lang = "=0.29.0"
anchor-spl = "=0.29.0"
solana-program = "=1.18.26"
solana-sdk = "=1.18.26"
spl-memo = "=4.0.4"
tokio = { version = "1", features = ["rt-multi-thread", "macros", "time", "sync"] }
anyhow = "1"
shellexpand = "3"
