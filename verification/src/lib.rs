//! Synchronisation server for a password manager: registration and login
//! decisions, a hybrid X25519 + Kyber1024 handshake whose transcript is
//! hashed with SHAKE256, and an XChaCha20-Poly1305 protected sync channel.
//!
//! Everything that touches the network, the database, Redis or the file
//! system lives outside this library; the library decides what to ask for
//! and what to answer, one step at a time.

pub mod status;
pub mod wire;
pub mod api;
pub mod text;
pub mod crypto;
pub mod registration;
pub mod sessions;
pub mod trust_channel;
