[package]
name = "cedar_server"
version = "0.1.0"
edition = "2021"
publish = false

[dependencies]
chrono = "0.4.45"
image = "0.25"
imageproc = "0.25.1"
canonical-error = "0.1.0"
astro = "2.0.0"
nalgebra = "0.33"
tokio = { version = "1", features = ["full"] }
async-trait = "0.1"
log = "0.4"
libc = "0.2"
pico-args = "0.5"
glob = "0.3"
env_logger = "0.11"
clap = { version = "4", features = ["derive"] }
ctrlc = "3"
futures = "0.3"
nix = { version = "*", features = ["time", "fs"] }
prost-types = "0.13"
ascom-alpaca = { version = "1.0.0-beta.10", features = ["server", "telescope"] }
rppal = "0.22"
bluer = { version = "*", features = ["bluetoothd", "rfcomm"] }

[dev-dependencies]
approx = "0.5"
