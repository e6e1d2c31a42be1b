//! PAYPHONE: the verified core of a VPN that speaks a small frame protocol
//! over QUIC datagrams or a camouflaged TLS stream.

pub mod auth;
pub mod buffer;
pub mod client;
pub mod clock;
pub mod crypto;
pub mod issuer;
pub mod laws;
pub mod net;
pub mod net_laws;
pub mod protocol;
pub mod random;
pub mod server;
pub mod settings;
pub mod settings_laws;
pub mod text;
pub mod text_laws;
pub mod transport;
pub mod tun;
pub mod wire;
pub mod wording_laws;
