[package]
name = "composefs_run"
version = "0.1.0"
edition = "2021"
publish = false

[dependencies]
anyhow = "1"
clap = { version = "4", features = ["derive"] }
clap_complete = { version = "4", features = ["unstable-dynamic"] }
composefs = "*"
composefs-fuse = "*"
composefs-oci = "*"
libc = "0.2"
oci-spec = "*"
rustix = { version = "1", features = ["fs", "mount", "process", "thread"] }
serde_json = "1"
