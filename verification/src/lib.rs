//! Codec and decision core of a peer-to-peer handshake modelled on Bitcoin's
//! network protocol: the wire layout of network addresses, the version
//! payload and its builder, the message header with its checksum, and the
//! bookkeeping of a handshake that runs against many peers at once.
//!
//! Everything here is a pure computation on bytes and plain values. Sockets,
//! name resolution and scheduling stay with the caller, who feeds what
//! happened into [`handshake`] and performs what it answers.

use vstd::prelude::*;

pub mod endian;
pub mod errors;
pub mod handshake;
pub mod helpers;
pub mod message;
pub mod protocol_builder;
pub mod traits;

verus! {

/// Bytes that frame a command on the wire: start string, command name,
/// payload size and checksum.
pub const COMMAND_SIZE: usize = 24;

/// Size of a version payload that carries no user agent.
pub const EMPTY_VERSION_SIZE: usize = 86;

/// Size of a version payload that carries a user agent of
/// [`USER_AGENT_SIZE`] bytes; the builder's defaults produce this one.
pub const CUSTOM_VERSION_SIZE: usize = 98;

/// Length of the user agent in a payload of [`CUSTOM_VERSION_SIZE`] bytes.
pub const USER_AGENT_SIZE: usize = 12;

} // verus!
