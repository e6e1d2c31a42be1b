[package]
name = "payphone"
version = "0.2.0"
edition = "2021"
publish = false

[dependencies]
aes-gcm = "0.10"
bytes = "1"
chacha20poly1305 = "0.10"
ed25519-dalek = { version = "2", features = ["rand_core"] }
libcrux-ml-kem = "*"
rand = "0.9"
rand_core = { version = "0.9", features = ["os_rng"] }
sha2 = "0.10"
x25519-dalek = { version = "2", features = ["static_secrets"] }
rcgen = { version = "0.14", default-features = false, features = ["crypto", "ring", "pem"] }
rustls-webpki = { version = "0.103", default-features = false, features = ["ring", "std"] }
dotenvy = "0.15"
futures-util = "0.3"
libc = "0.2"
quinn = { version = "0.11", default-features = false, features = ["runtime-tokio", "rustls-ring"] }
rustls = { version = "0.23", default-features = false, features = ["ring", "std", "tls12"] }
rustls-acme = { version = "*", default-features = false, features = ["ring"] }
rustls-pemfile = "2"
tokio = { version = "1", features = ["full"] }
tokio-rustls = { version = "0.26", default-features = false, features = ["ring", "tls12"] }
tun-rs = { version = "2", features = ["async"] }
webpki-roots = "1"
