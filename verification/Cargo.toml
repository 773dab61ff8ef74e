[package]
name = "runh"
version = "0.1.0"
edition = "2021"
publish = false

[dependencies]
nix = { version = "=0.29.0", features = ["fs", "mount", "sched", "signal", "process", "user", "term", "socket", "hostname", "uio", "poll"] }
libc = "=0.2.190"
clap = { version = "=4.6.7", features = ["derive"] }
oci-spec = "=0.10.0"
serde = { version = "=1.0.229", features = ["derive"] }
serde_json = "=1.0.151"
log = "=0.4.34"
command-fds = "=0.3.3"
capctl = "=0.2.4"
procfs = "=0.18.0"
time = { version = "=0.3.55", features = ["formatting"] }
goblin = "=0.10.7"
