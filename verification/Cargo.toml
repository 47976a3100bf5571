[package]
name = "legal-hold"
version = "0.1.0"
edition = "2021"
publish = false

[dependencies]
futures = "=0.3.34"
hex = "=0.4.3"
lenso = "=0.5.30"
lenso-auth-sdk = "=0.2.3"
lenso-capability-access-control = "=0.2.0"
lenso-capability-agent-tool-provider = "=0.3.0"
lenso-capability-organization-membership = "=0.2.0"
lenso-capability-retention-guard = "=0.2.0"
lenso-capability-secrets = "=0.1.4"
lenso-kernel = "=0.3.13"
lenso-postgres-kit = "=0.1.1"
serde = { version = "=1.0.229", features = ["derive"] }
serde_json = { version = "=1.0.154", features = ["preserve_order"] }
sha2 = "=0.11.1"
sqlx = { version = "=0.9.0", default-features = false, features = ["postgres", "runtime-tokio", "time", "json"] }
thiserror = "=2.0.21"
time = { version = "=0.3.55", features = ["formatting"] }
zeroize = "=1.9.1"
