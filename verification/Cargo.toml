[package]
name = "rspack_resolver"
version = "0.1.0"
edition = "2021"
publish = false

[dependencies]
camino = "=1.2.6"
cfg-if = "=1.0.5"
dunce = "=1.0.5"
hashbrown = "=0.15.5"
indexmap = "=2.14.2"
json-strip-comments = "=1.0.4"
pnp = "=0.12.12"
rustc-hash = "=2.1.3"
serde = { version = "=1.0.229", features = ["derive"] }
serde_json = { version = "=1.0.154", features = ["preserve_order"] }
simdutf8 = "=0.1.5"
