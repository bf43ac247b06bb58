[package]
name = "riptide"
version = "0.1.0"
edition = "2021"
publish = false

[dependencies]
log = "=0.4.35"
vte = "=0.8.0"
termios = "=0.3.3"
structopt = "=0.3.26"
atty = "=0.2.14"
exitcode = "=1.1.2"
log-panics = "=2.1.0"
directories = "=6.0.0"
rusqlite = { version = "=0.41.1", features = ["bundled"] }
termion = "=4.0.6"
yansi = "=1.0.1"
utf8parse = "=0.2.2"
nix = { version = "=0.31.3", features = ["signal"] }
scopeguard = "=1.2.0"
serde = { version = "=1.0.229", features = ["derive"] }
toml = "=1.1.8"
