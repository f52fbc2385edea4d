[package]
name = "treesync"
version = "0.1.0"
edition = "2021"
publish = false

[dependencies]
clap = { version = "=4.6.7", features = ["derive"] }
color-eyre = "=0.6.5"
directories = "=6.0.0"
gethostname = "=1.1.0"
globset = "=0.4.20"
ignore = "=0.4.33"
jiff = "=0.2.38"
serde = { version = "=1.0.229", features = ["derive"] }
tokio = { version = "=1.53.2", features = ["macros", "rt-multi-thread", "process", "io-util", "sync"] }
toml = "=1.1.7"
tracing = "=0.1.44"
tracing-subscriber = "=0.3.23"
which = "=8.0.6"

[dev-dependencies]
tempfile = "=3.27.0"
