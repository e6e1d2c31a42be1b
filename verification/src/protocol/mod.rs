//! The PAYPHONE frame protocol.

pub mod access_denied_dude;
pub mod all_good_dude;
pub mod back_again_dude;
pub mod close;
pub mod data;
pub mod error;
pub mod frame;
pub mod ping;
pub mod pong;
pub mod rekey;
pub mod still_good_dude;
pub mod whats_up_dude;
pub mod wire_laws;

pub use error::FrameError;
pub use frame::{
    Frame, FrameType, DEFAULT_PORT, DEFAULT_TCP_PORT, HEADER_SIZE, MAX_PAYLOAD_SIZE,
    PROTOCOL_VERSION,
};
