//! What can go wrong in a handshake, and on which side of the exchange.

use vstd::prelude::*;

verus! {

/// The party whose behaviour an error points at.
#[derive(Clone, Copy, Debug, PartialEq, Eq, Structural)]
pub enum Side {
    /// This node: a defect in how a message was put together.
    Local,
    /// The peer, or the network on the way to it.
    Remote,
}

/// An error of the handshake.
#[derive(Clone, Copy, Debug, PartialEq, Eq, Structural)]
pub enum ErrorSide {
    /// A field or an assembled structure does not have the width its format
    /// fixes. Carries the number of bytes that were found.
    SizeMismatch(usize),
    /// The host name did not resolve to any endpoint.
    Resolution,
    /// The transport to one endpoint failed.
    Connection,
    /// A peer sent a payload of a size the handshake does not accept.
    /// Carries the number of bytes that were received.
    PayloadSizeMismatch(usize),
    /// A state that the data model rules out was reached.
    Unreachable,
}

impl ErrorSide {
    /// The side this error implicates, for use in contracts.
    pub open spec fn spec_side(&self) -> Side {
        match *self {
            ErrorSide::SizeMismatch(_) | ErrorSide::Unreachable => Side::Local,
            ErrorSide::Resolution | ErrorSide::Connection | ErrorSide::PayloadSizeMismatch(_) => {
                Side::Remote
            },
        }
    }

    /// The side this error implicates: sizing and invariant errors are
    /// defects of this node, everything else is the peer's or the network's.
    #[verifier::when_used_as_spec(spec_side)]
    pub fn side(&self) -> (side: Side)
        ensures
            side == self.spec_side(),
    {
        match self {
            ErrorSide::SizeMismatch(_) => Side::Local,
            ErrorSide::Unreachable => Side::Local,
            ErrorSide::Resolution => Side::Remote,
            ErrorSide::Connection => Side::Remote,
            ErrorSide::PayloadSizeMismatch(_) => Side::Remote,
        }
    }
}

} // verus!
