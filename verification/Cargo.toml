[package]
name = "allowance_tracker"
version = "0.1.0"
edition = "2021"
publish = false

[dependencies]
chrono = "0.4"
dirs = "5"
serde = { version = "1", features = ["derive"] }
serde_json = "1"
serde_yaml = "0.9"
csv = "1"
anyhow = "1"
thiserror = "1"
log = "0.4"
time = { version = "0.3", features = ["formatting", "parsing"] }
uuid = { version = "1", features = ["v4"] }
fs_extra = "1"
git2 = { version = "0.19", default-features = false }
axum = "0.7"
tower-http = { version = "0.5", features = ["cors"] }
tokio = { version = "1", features = ["rt-multi-thread", "macros", "net"] }
async-trait = "0.1"

[dev-dependencies]
tempfile = "3"
