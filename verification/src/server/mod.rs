//! The server: sessions, what each frame leads to, and the traffic between
//! the tunnel device and the clients.

pub mod dns;
pub mod front;
pub mod front_laws;
pub mod handler;
pub mod handler_laws;
pub mod laws;
pub mod rate;
pub mod session;
pub mod session_laws;
pub mod settings;
pub mod store;
