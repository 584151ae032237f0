[package]
name = "sound_bored"
version = "0.1.0"
edition = "2021"
publish = false

[dependencies]
clap = { version = "4", features = ["derive"] }
creak = "*"
dasp = { version = "0.11", features = ["signal", "interpolate", "interpolate-linear"] }
hound = "3"
puremp3 = "0.1"

[dev-dependencies]
tempfile = "3"
