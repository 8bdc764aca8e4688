[package]
name = "crabsoup"
version = "0.1.0"
edition = "2021"
publish = false

[dependencies]
typed-path = "=0.13.0"
wyrand = { version = "=0.5.0", features = ["wyhash"] }
tsugiki = "=0.9.0-alpha.1"
kuchikiki = "=0.8.2"
html5ever = "=0.29.1"
encoding_rs = "=0.8.44"
chrono = "=0.4.45"
chrono-tz = { version = "=0.10.4", features = ["case-insensitive"] }
regex = "=1.13.1"
base64 = "=0.22.1"
urlencoding = "=2.1.3"
html-escape = "=0.3.0"
md-5 = "=0.10.6"
sha1 = "=0.10.7"
sha2 = "=0.10.9"
blake2 = "=0.10.6"
csv = "=1.4.0"
codespan-reporting = "=0.11.1"
mlua = { version = "=0.10.5", features = ["luau", "serialize"] }
serde_json = "=1.0.154"
toml = "=0.8.23"
serde_yaml = "=0.9.34+deprecated"
minijinja = "=2.24.0"
glob = "=0.3.4"
num_cpus = "=1.17.0"
rustyline = "=19.0.0"
tokio = { version = "=1.54.1", features = ["full"] }
tracing = "=0.1.44"
tidier = "=0.5.6"
