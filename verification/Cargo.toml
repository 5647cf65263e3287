[package]
name = "pasua"
version = "0.1.0"
edition = "2021"
publish = false

[dependencies]
anyhow = "1"
clap = { version = "4", features = ["derive", "env"] }
dirs = "*"
lsp-types = "0.97"
rmcp = { version = "*", features = ["server", "transport-io", "macros"] }
rmp-serde = "1"
schemars = "*"
serde = { version = "1", features = ["derive"] }
serde_json = "1"
similar = "2"
tokio = { version = "1", features = ["macros", "rt-multi-thread", "process", "io-util", "time"] }
toml = "*"
tracing = "0.1"
tracing-subscriber = { version = "0.3", features = ["env-filter"] }
tree-sitter = "*"
tree-sitter-elixir = "*"
tree-sitter-gleam = "*"
tree-sitter-go = "*"
tree-sitter-python = "*"
tree-sitter-rust = "*"
tree-sitter-typescript = "*"
twox-hash = "2"
which = "*"

[dev-dependencies]
tempfile = "3"
