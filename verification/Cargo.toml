[package]
name = "ccc_jj"
version = "0.1.0"
edition = "2021"
publish = false

[dependencies]
anyhow = "=1.0.104"
clap = { version = "=4.6.7", features = ["derive", "env"] }
dirs = "=7.0.0"
futures = "=0.3.34"
gethostname = "=1.1.0"
globset = "=0.4.20"
indicatif = "=0.18.6"
jj-lib = "=0.37.0"
# Not used by name. jj-lib takes kstring 2 by way of gix, and the releases
# after 2.0.2 ask for a newer compiler than this crate is built with.
kstring = "=2.0.2"
serde = { version = "=1.0.229", features = ["derive"] }
serde_json = "=1.0.154"
similar = "=2.7.0"
textwrap = "=0.16.4"
tokio = { version = "=1.54.1", features = ["macros", "rt-multi-thread", "io-util"] }
toml = "*"
tracing = "=0.1.44"

[dev-dependencies]
regex = "=1.13.1"
