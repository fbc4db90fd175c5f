//! Secure XBee modem link: API-mode framing, replay protection, a signed
//! X25519 handshake and AES-256-GCM sealed packets.

pub mod buffers;
pub mod bytes;
pub mod api_mode;
pub mod replay;
pub mod crypto;
pub mod secure_packet;
pub mod handshake;
pub mod text;
pub mod keys;
pub mod transport;
pub mod link;
pub mod session;
pub mod serial;
pub mod role;

// The key types of the identity keys whose bytes this library takes.
pub use ed25519_dalek::{SigningKey, VerifyingKey};
