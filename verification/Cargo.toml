[package]
name = "attendance"
version = "0.1.0"
edition = "2021"
publish = false

[dependencies]
hex = "=0.4.3"
sha2 = "=0.10.9"
rand = "=0.8.8"
ark-ff = "=0.5.0"
ark-ec = "=0.5.0"
ark-serialize = "=0.5.0"
ark-test-curves = { version = "=0.5.0", features = ["bls12_381_curve"] }
ark-bn254 = "=0.5.0"
ark-groth16 = "=0.5.0"
ark-snark = "=0.5.1"
ark-relations = "=0.5.1"
ark-r1cs-std = "=0.5.0"
ed25519-dalek = { version = "=2.2.0", features = ["rand_core"] }
sp-io = "=49.0.0"
geohash = "=0.13.2"
serde = { version = "=1.0.229", features = ["derive"] }
serde_json = "=1.0.154"
async-trait = "=0.1.92"
thiserror = "=1.0.69"
clap = { version = "4", default-features = false, features = ["derive", "std", "help", "usage", "error-context"] }
tokio = { version = "=1.54.1", features = ["macros", "rt-multi-thread"] }
