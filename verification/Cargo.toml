[package]
name = "dicom_engine"
version = "0.1.0"
edition = "2021"
publish = false

[dependencies]
byteorder = "1"
encoding = "0.2"
chrono = { version = "0.4", default-features = false, features = ["std"] }
clap = { version = "4", features = ["derive"] }
colored = "2"
image = { version = "0.24", default-features = false, features = ["png", "jpeg"] }
itertools = "0.10"
lazy_static = "1"
quick-error = "2"
snafu = "0.7"
term_size = "0.3"
tracing = "0.1"
tracing-subscriber = "0.3"
