[package]
name = "experimental_cms"
version = "0.1.0"
edition = "2021"
publish = false

[dependencies]
anyhow = "=1.0.104"
axum = "=0.7.9"
axum-flash = "=0.8.0"
axum-macros = "=0.4.2"
path-clean = "=1.0.1"
rquickjs = "=0.14.0"
serde = { version = "=1.0.229", features = ["derive"] }
serde_json = "=1.0.154"
slugify = "=0.1.0"
surrealdb = { version = "=1.0.0-beta.8", default-features = false, features = ["kv-mem", "parallel"] }
swc_bundler = "=57.0.0"
swc_common = "=26.0.0"
swc_ecma_ast = "=29.0.2"
swc_ecma_codegen = "=32.0.5"
swc_ecma_loader = "=27.0.0"
swc_ecma_parser = "=46.1.2"
swc_ecma_transforms_base = "=50.0.3"
swc_ecma_transforms_proposal = "=50.0.0"
swc_ecma_transforms_react = "=56.0.1"
swc_ecma_transforms_typescript = "=56.0.1"
swc_ecma_visit = "=29.0.0"
tokio = { version = "=1.54.1", features = ["macros", "rt-multi-thread", "sync", "net"] }
tower-http = { version = "=0.5.2", features = ["trace"] }
tracing = "=0.1.44"
tracing-subscriber = { version = "=0.3.23", features = ["env-filter"] }
