[package]
name = "devloop"
version = "0.1.0"
edition = "2021"
publish = false

[dependencies]
adler32 = "=1.2.0"
futures-util = "=0.3.34"
tokio = { version = "=1.53.2", default-features = false, features = ["macros", "rt-multi-thread", "sync"] }
warp = { version = "=0.4.3", features = ["server", "websocket"] }
