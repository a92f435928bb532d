[package]
name = "mobcsv"
version = "0.1.0"
edition = "2021"
publish = false

[dependencies]
csv = "=1.4.0"
serde = { version = "=1.0.229", features = ["derive"] }
structopt = "=0.3.26"
clap-verbosity-flag = "=0.3.2"
log = "=0.4.34"
exitfailure = "=0.5.1"
