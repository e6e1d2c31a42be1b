//! How frames travel: obfuscated QUIC datagrams, or a TLS stream that looks
//! like a web site.

pub mod https_front;
pub mod identity;
pub mod laws;
pub mod obfuscated_socket;
pub mod obfuscation;
pub mod reality;
pub mod tls;
pub mod tuning;
