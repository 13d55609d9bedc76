//! The messages of the handshake and the values they are made of.

pub mod header;
pub mod network_address;
pub mod payload;
