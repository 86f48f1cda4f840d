[package]
name = "txtfp"
version = "0.2.1"
edition = "2021"
publish = false

[dependencies]
xxhash-rust = { version = "=0.8.19", features = ["xxh3"] }
unicode-normalization = "=0.1.26"
caseless = "=0.2.2"
unicode-security = "=0.1.3"
unicode-segmentation = "=1.13.3"
tlsh2 = { version = "=1.1.0", features = ["diff"] }
hashbrown = "=0.17.1"
smallvec = "=1.16.4"
jieba-rs = "=0.11.0"
html2text = "=0.17.4"
pulldown-cmark = { version = "=0.13.6", default-features = false }
pdf-extract = "=0.12.1"
serde = { version = "=1.0.229", features = ["derive"] }
serde_json = "=1.0.154"
thiserror = "=2.0.21"
reqwest = { version = "=0.12.28", default-features = false, features = ["blocking", "json", "rustls-tls"] }
backoff = "=0.4.0"
rayon = "=1.12.0"
ort = { version = "2.0.0-rc.10", default-features = false, features = ["ndarray", "load-dynamic"] }
ndarray = "0.16"
tokenizers = { version = "0.21", default-features = false, features = ["onig"] }
hf-hub = { version = "0.4", default-features = false, features = ["ureq"] }
