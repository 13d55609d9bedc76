//! The payload of a version message, complete and of its fixed size.

use crate::endian::reversed_bytes;
use crate::traits::{EndianWrite, Length};
use crate::{CUSTOM_VERSION_SIZE, EMPTY_VERSION_SIZE};
use vstd::prelude::*;

verus! {

/// The payload of a version message. Only the builder makes one, and only
/// with every field in place, so its bytes always have one of the two
/// sizes that the format fixes.
pub struct VersionPayload {
    bytes: Vec<u8>,
}

impl VersionPayload {
    #[verifier::type_invariant]
    spec fn sized(&self) -> bool {
        self.bytes@.len() == EMPTY_VERSION_SIZE || self.bytes@.len() == CUSTOM_VERSION_SIZE
    }

    /// Wraps assembled bytes that have one of the two fixed sizes.
    pub(crate) fn from_assembled(bytes: Vec<u8>) -> (payload: VersionPayload)
        requires
            bytes@.len() == EMPTY_VERSION_SIZE || bytes@.len() == CUSTOM_VERSION_SIZE,
        ensures
            payload.wire() == bytes@,
    {
        VersionPayload { bytes }
    }
}

impl EndianWrite for VersionPayload {
    type Output = Vec<u8>;

    closed spec fn wire(&self) -> Seq<u8> {
        self.bytes@
    }

    fn to_le_bytes(&self) -> (out: Vec<u8>) {
        reversed_bytes(self.bytes.as_slice())
    }

    fn to_be_bytes(&self) -> (out: Vec<u8>) {
        self.bytes.clone()
    }
}

impl Length for VersionPayload {
    fn len(&self) -> (n: usize)
        ensures
            n == EMPTY_VERSION_SIZE || n == CUSTOM_VERSION_SIZE,
    {
        proof {
            use_type_invariant(self);
        }
        self.bytes.len()
    }
}

} // verus!
