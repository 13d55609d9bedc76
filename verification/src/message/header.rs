//! The header that frames every message.
//!
//! On the wire a header is 24 bytes: the start string of the network, the
//! command name padded with zero bytes, the size of the payload that
//! follows, least significant byte first, and the checksum of that payload.

use crate::endian::{
    capacity, le_digits, le_value, lemma_le_value_of_digits, read_field, reversed_array,
    u32_from_le_bytes, u32_to_le_bytes, write_field,
};
use crate::errors::ErrorSide;
use crate::helpers::{checksum_of, le_checksum, CHECKSUM_SIZE};
use crate::traits::{EndianWrite, Length};
use crate::COMMAND_SIZE;
use vstd::prelude::*;

verus! {

/// Width of the start string.
pub const START_STRING_SIZE: usize = 4;

/// Width of the command name.
pub const COMMAND_NAME_SIZE: usize = 12;

/// Width of the payload size.
pub const PAYLOAD_SIZE_SIZE: usize = 4;

/// The start string of the main network.
pub const START_STRING_MAINNET: [u8; START_STRING_SIZE] = [0xf9, 0xbe, 0xb4, 0xd9];

/// The command name `version`, padded to its width.
pub const COMMAND_VERSION: [u8; COMMAND_NAME_SIZE] =
    [0x76, 0x65, 0x72, 0x73, 0x69, 0x6f, 0x6e, 0, 0, 0, 0, 0];

/// The header of a message, each field as it stands on the wire.
#[derive(Clone, Copy, Debug, PartialEq, Eq)]
pub struct MessageHeader {
    pub start_string: [u8; START_STRING_SIZE],
    pub command_name: [u8; COMMAND_NAME_SIZE],
    pub payload_size: [u8; PAYLOAD_SIZE_SIZE],
    pub checksum: [u8; CHECKSUM_SIZE],
}

/// The bytes of the header that announces `payload` under the given start
/// string and command name.
pub open spec fn framing(start_string: Seq<u8>, command_name: Seq<u8>, payload: Seq<u8>) -> Seq<
    u8,
> {
    start_string + command_name + le_digits(payload.len(), PAYLOAD_SIZE_SIZE as nat) + checksum_of(
        payload,
    )
}

impl MessageHeader {
    /// The payload size that the header declares.
    pub open spec fn declared_size(&self) -> nat {
        le_value(self.payload_size@)
    }

    /// Whether the header describes `payload`: it declares its size and
    /// carries its checksum. A receiver treats anything else as corrupt.
    pub open spec fn frames(&self, payload: Seq<u8>) -> bool {
        &&& self.declared_size() == payload.len()
        &&& self.checksum@ == checksum_of(payload)
    }

    /// The header of a version message with the given payload. A payload
    /// too long for the four bytes of the size field is refused, with its
    /// length in the error.
    pub fn version(payload: &[u8]) -> (result: Result<MessageHeader, ErrorSide>)
        ensures
            payload@.len() <= u32::MAX ==> (result matches Ok(header) && {
                &&& header.start_string == START_STRING_MAINNET
                &&& header.command_name == COMMAND_VERSION
                &&& header.payload_size@ == le_digits(payload@.len(), PAYLOAD_SIZE_SIZE as nat)
                &&& header.checksum@ == checksum_of(payload@)
                &&& header.frames(payload@)
                &&& header.wire() == framing(START_STRING_MAINNET@, COMMAND_VERSION@, payload@)
            }),
            payload@.len() > u32::MAX ==> result == Err::<MessageHeader, ErrorSide>(
                ErrorSide::SizeMismatch(payload.len()),
            ),
    {
        if payload.len() > u32::MAX as usize {
            return Err(ErrorSide::SizeMismatch(payload.len()));
        }
        let header = MessageHeader {
            start_string: START_STRING_MAINNET,
            command_name: COMMAND_VERSION,
            payload_size: u32_to_le_bytes(payload.len() as u32),
            checksum: le_checksum(payload),
        };
        proof {
            header.lemma_declared_size(payload@.len());
        }
        Ok(header)
    }

    /// The header bytes for `payload`: start string and command name of
    /// this header, then the size and the checksum of `payload`, both
    /// computed from it. A payload too long for the size field is refused.
    pub fn to_be_bytes_with_payload(&self, payload: &[u8]) -> (result: Result<
        [u8; COMMAND_SIZE],
        ErrorSide,
    >)
        ensures
            payload@.len() <= u32::MAX ==> (result matches Ok(bytes) && bytes@ == framing(
                self.start_string@,
                self.command_name@,
                payload@,
            )),
            payload@.len() > u32::MAX ==> result == Err::<[u8; COMMAND_SIZE], ErrorSide>(
                ErrorSide::SizeMismatch(payload.len()),
            ),
    {
        if payload.len() > u32::MAX as usize {
            return Err(ErrorSide::SizeMismatch(payload.len()));
        }
        let framed = MessageHeader {
            start_string: self.start_string,
            command_name: self.command_name,
            payload_size: u32_to_le_bytes(payload.len() as u32),
            checksum: le_checksum(payload),
        };
        Ok(framed.to_be_bytes())
    }

    /// Reads a header from the bytes of one. Any other number of bytes is
    /// refused, with that number in the error.
    pub fn from_bytes(bytes: &[u8]) -> (result: Result<MessageHeader, ErrorSide>)
        ensures
            bytes@.len() == COMMAND_SIZE ==> (result matches Ok(header) && header.wire()
                == bytes@),
            bytes@.len() != COMMAND_SIZE ==> result == Err::<MessageHeader, ErrorSide>(
                ErrorSide::SizeMismatch(bytes.len()),
            ),
    {
        if bytes.len() != COMMAND_SIZE {
            return Err(ErrorSide::SizeMismatch(bytes.len()));
        }
        let header = MessageHeader {
            start_string: read_field(bytes, 0),
            command_name: read_field(bytes, 4),
            payload_size: read_field(bytes, 16),
            checksum: read_field(bytes, 20),
        };
        proof {
            assert(header.wire() =~= bytes@);
        }
        Ok(header)
    }

    /// The payload size that the header declares.
    pub fn payload_len(&self) -> (size: u32)
        ensures
            size == self.declared_size(),
    {
        u32_from_le_bytes(&self.payload_size)
    }

    /// Whether the header describes `payload`.
    pub fn matches_payload(&self, payload: &[u8]) -> (matches: bool)
        ensures
            matches == self.frames(payload@),
    {
        let size = self.payload_len();
        if payload.len() > u32::MAX as usize || payload.len() as u32 != size {
            return false;
        }
        let expected = le_checksum(payload);
        let equal = expected[0] == self.checksum[0] && expected[1] == self.checksum[1]
            && expected[2] == self.checksum[2] && expected[3] == self.checksum[3];
        proof {
            if equal {
                assert(self.checksum@ =~= expected@);
            }
        }
        equal
    }

    /// Two headers with the same bytes are the same header.
    pub proof fn lemma_wire_injective(self, other: MessageHeader)
        requires
            self.wire() == other.wire(),
        ensures
            self == other,
    {
        let a = self.wire();
        let b = other.wire();
        assert(self.start_string@ =~= a.subrange(0, 4));
        assert(other.start_string@ =~= b.subrange(0, 4));
        assert(self.command_name@ =~= a.subrange(4, 16));
        assert(other.command_name@ =~= b.subrange(4, 16));
        assert(self.payload_size@ =~= a.subrange(16, 20));
        assert(other.payload_size@ =~= b.subrange(16, 20));
        assert(self.checksum@ =~= a.subrange(20, 24));
        assert(other.checksum@ =~= b.subrange(20, 24));
        assert(self.start_string =~= other.start_string);
        assert(self.command_name =~= other.command_name);
        assert(self.payload_size =~= other.payload_size);
        assert(self.checksum =~= other.checksum);
    }

    /// The size field reads back as the length that was written into it.
    pub proof fn lemma_declared_size(self, length: nat)
        requires
            length <= u32::MAX,
            self.payload_size@ == le_digits(length, PAYLOAD_SIZE_SIZE as nat),
        ensures
            self.declared_size() == length,
    {
        assert(capacity(4) == 0x1_0000_0000) by {
            reveal_with_fuel(capacity, 5);
        }
        lemma_le_value_of_digits(length, 4);
    }
}

impl EndianWrite for MessageHeader {
    type Output = [u8; COMMAND_SIZE];

    open spec fn wire(&self) -> Seq<u8> {
        self.start_string@ + self.command_name@ + self.payload_size@ + self.checksum@
    }

    fn to_le_bytes(&self) -> (out: [u8; COMMAND_SIZE]) {
        let bytes = self.to_be_bytes();
        reversed_array(&bytes)
    }

    fn to_be_bytes(&self) -> (out: [u8; COMMAND_SIZE]) {
        let mut out = [0u8; COMMAND_SIZE];
        write_field(&mut out, 0, &self.start_string);
        write_field(&mut out, 4, &self.command_name);
        write_field(&mut out, 16, &self.payload_size);
        write_field(&mut out, 20, &self.checksum);
        proof {
            assert(out@ =~= self.wire());
        }
        out
    }
}

impl Length for MessageHeader {
    fn len(&self) -> (n: usize)
        ensures
            n == COMMAND_SIZE,
    {
        COMMAND_SIZE
    }
}

} // verus!
