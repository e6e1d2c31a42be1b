//! Xray-compatible REALITY on the TCP path.

pub mod auth;
pub mod cert;
pub mod config;
pub mod crypto_laws;
pub mod hello;
pub mod hello_build;
pub mod hello_laws;
pub mod hello_shape;
pub mod keys;
pub mod parse_laws;
pub mod record_detect;
pub mod splice;
pub mod stream_laws;
pub mod suite;
pub mod talk_laws;
pub mod tls_client;
pub mod tls_laws;
pub mod tls_messages;
pub mod tls_server;
pub mod tls_stream;
