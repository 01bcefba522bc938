[package]
name = "geodb"
version = "0.1.0"
edition = "2021"
publish = false

[dependencies]
anyhow = "1"
log = "0.4"
md5 = "0.7"
zerocopy = "0.8"
memmap2 = "0.9"
ureq = "2"
progress-streams = "1"
crossbeam = "0.8"
parking_lot = "0.12"
rayon = "1"
itertools = "*"
smallvec = "1"
structopt = "0.3"
clap = { version = "4", features = ["derive"] }
hifitime = "*"
platform-dirs = "0.3"
glam = "*"
approx = "0.5"
ordered-float = "*"
num-traits = "0.2"
once_cell = "1"
