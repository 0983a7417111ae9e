[package]
name = "radvisor"
version = "1.3.1"
edition = "2021"
publish = false

[dependencies]
atoi = "2"
itoa = "1"
num-traits = "0.2"
csv = "1"
humantime = "2"
byte-unit = "4"
sys-info = "0.9"
serde = { version = "1", features = ["derive"] }
serde_yaml = "0.9"
clap = { version = "3", features = ["derive"] }
atty = "0.2"
termcolor = "1"
textwrap = "0.16"
libc = "0.2"
ctrlc = "3"
bus = "2"
gethostname = "0.4"
lazy_static = "1"
anyhow = "1"
shiplift = { version = "0.7", default-features = false, features = ["unix-socket", "chrono"] }
tokio = { version = "1", features = ["rt"] }
