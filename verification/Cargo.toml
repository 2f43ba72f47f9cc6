[package]
name = "earthquakes"
version = "0.1.0"
edition = "2021"
publish = false

[dependencies]
anyhow = "1"
async-trait = "0.1"
chrono = "=0.4.45"
diesel = { version = "2", features = ["postgres", "chrono"] }
dotenvy = "0.15"
futures = "0.3"
linfa = "0.7"
linfa-clustering = "0.7"
ndarray = "0.15"
ndarray-rand = "0.14"
rand_xoshiro = "0.6"
reqwest = { version = "=0.12.28", features = ["blocking", "json"] }
serde = { version = "1", features = ["derive"] }
sqlx = { version = "0.8", features = ["postgres", "runtime-tokio", "chrono"] }
thiserror = "1"
tokio = { version = "1", features = ["macros", "rt-multi-thread", "time"] }
