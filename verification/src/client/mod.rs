//! The client: its settings, the session with the server and the tunnel.

pub mod matrix;
pub mod matrix_laws;
pub mod session;
pub mod session_file;
pub mod settings;
pub mod tunnel;
