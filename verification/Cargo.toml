[package]
name = "tale_ndjson"
version = "0.1.0"
edition = "2021"
publish = false

[dependencies]
bytes = "=1.12.1"
jiff = { version = "=0.2.39", features = ["serde"] }
owo-colors = "=4.4.0"
textwrap = { version = "=0.16.4", features = ["terminal_size"] }
humansize = "=2.1.3"
ansi-width = "=0.1.1"
tabwriter = "=1.4.1"
serde = { version = "=1.0.229", features = ["derive"] }
serde_json = "=1.0.154"
clap = { version = "=4.6.7", features = ["derive"] }
clap_complete = "=4.6.11"
glob = "=0.3.4"
memory-stats = "=1.2.0"
sysinfo = "=0.40.1"
notify = "=8.2.1"
tokio = { version = "=1.54.1", features = ["macros", "rt-multi-thread", "sync", "time"] }
tempfile = "=3.27.0"
miette = "=7.6.0"
thiserror = "=2.0.21"
anyhow = "=1.0.104"
