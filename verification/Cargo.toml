[package]
name = "chaindexing"
version = "0.1.0"
edition = "2021"
publish = false

[dependencies]
async-trait = "0.1"
bb8 = "0.8"
chrono = "0.4"
diesel = { version = "2", default-features = false, features = ["postgres_backend", "chrono", "uuid"] }
diesel-async = { version = "0.4", features = ["postgres", "bb8"] }
ethers = { version = "2", default-features = false }
futures-core = "0.3"
tokio = { version = "1", features = ["macros", "rt-multi-thread", "sync", "time"] }
uuid = { version = "1", features = ["v4"] }
