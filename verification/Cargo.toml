[package]
name = "mega"
version = "0.1.0"
edition = "2021"
publish = false

[dependencies]
sha1 = "0.10"
libp2p-identity = { version = "0.2", features = ["peerid"] }
chrono = { version = "0.4", default-features = false, features = ["clock", "std"] }
rpassword = "7"
libp2p = { version = "0.52", default-features = false, features = ["kad"] }
sea-orm = { version = "=0.11.3", default-features = false, features = ["macros", "with-chrono"] }
