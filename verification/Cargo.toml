[package]
name = "question_service"
version = "0.1.0"
edition = "2021"
publish = false

[dependencies]
tonic = "=0.14.6"
tonic-prost = "*"
prost = "*"
http = "=1.5.0"
warp = { version = "=0.4.3", features = ["server"] }
serde = { version = "*", features = ["derive"] }
serde_json = "*"
tokio = { version = "*", features = ["macros", "rt-multi-thread"] }
clap = { version = "*", features = ["derive"] }
diesel = { version = "*", features = ["postgres"] }
deadpool-diesel = { version = "*", features = ["postgres"] }
