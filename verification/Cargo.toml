[package]
name = "monstertruck_ops"
version = "0.1.0"
edition = "2021"
publish = false

[dependencies]
monstertruck-core = "*"
monstertruck-geometry = "*"
monstertruck-mesh = "*"
monstertruck-topology = "*"
monstertruck-traits = "*"
derive_more = { version = "*", features = ["from"] }
rayon = "*"
rustc-hash = "*"
serde = { version = "*", features = ["derive"] }
smallvec = "*"
thiserror = "*"

[dev-dependencies]
monstertruck-meshing = "*"
