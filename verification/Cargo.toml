[package]
name = "mirrorfs"
version = "0.1.0"
edition = "2021"
publish = false

[dependencies]
fnv = "=1.0.7"
multimap = { version = "=0.10.1", default-features = false }
libc = "=0.2.191"
nix = { version = "=0.31.3", features = ["fs"] }
time = "=0.1.45"
fuse = "=0.3.1"
utime = "=0.3.3"
users = "=0.11.0"
log = "=0.4.34"
