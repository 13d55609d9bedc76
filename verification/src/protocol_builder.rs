//! Step-by-step construction of a version payload.
//!
//! A builder starts out with a default for every field. Setters replace
//! single fields, in any order, and refuse a value of the wrong width. The
//! final `build` assembles the bytes and hands out a payload only if they
//! have one of the two sizes that the format fixes; it never pads.

use crate::endian::{
    be_digits, i32_to_le_bytes, i64_to_le_bytes, le_digits, lemma_be_digits_len, read_field,
    twos_complement, u64_to_be_bytes, u64_to_le_bytes,
};
use crate::errors::ErrorSide;
use crate::message::network_address::{
    NetworkAddress, Services, DEFAULT_IPADDR, DEFAULT_PORT, NETWORK_IPvXX, NETWORK_PORT,
    NETWORK_SERVICES,
};
use crate::message::payload::VersionPayload;
use crate::traits::EndianWrite;
use crate::{CUSTOM_VERSION_SIZE, EMPTY_VERSION_SIZE, USER_AGENT_SIZE};
use vstd::prelude::*;

verus! {

/// The protocol version that a payload announces unless told otherwise.
pub const PROTOCOL_VERSION: i32 = 70015;

/// The user agent that a payload carries unless told otherwise:
/// `/p2p-hs:0.1/`.
pub const DEFAULT_USER_AGENT: [u8; USER_AGENT_SIZE] =
    [0x2f, 0x70, 0x32, 0x70, 0x2d, 0x68, 0x73, 0x3a, 0x30, 0x2e, 0x31, 0x2f];

/// The longest user agent whose length still fits the single byte that
/// precedes it on the wire.
pub const MAX_USER_AGENT_SIZE: usize = 252;

/// The fields of a version payload as plain values.
pub struct VersionFields {
    pub version: int,
    pub services: nat,
    pub timestamp: int,
    pub recv_ip: Seq<u8>,
    pub recv_port: nat,
    pub from_ip: Seq<u8>,
    pub from_port: nat,
    pub nonce: nat,
    pub user_agent: Seq<u8>,
    pub start_height: int,
    pub relay: bool,
}

/// The fields a fresh builder holds.
pub open spec fn default_fields() -> VersionFields {
    VersionFields {
        version: PROTOCOL_VERSION as int,
        services: Services::NODE_NETWORK.spec_bits() as nat,
        timestamp: 0,
        recv_ip: DEFAULT_IPADDR@,
        recv_port: DEFAULT_PORT as nat,
        from_ip: DEFAULT_IPADDR@,
        from_port: DEFAULT_PORT as nat,
        nonce: 0,
        user_agent: DEFAULT_USER_AGENT@,
        start_height: 0,
        relay: false,
    }
}

/// An address as a version payload embeds it: the `NODE_NETWORK` flag, the
/// sixteen address bytes and the port, most significant byte first. No
/// time.
pub open spec fn embedded_address(ip: Seq<u8>, port: nat) -> Seq<u8> {
    Services::NODE_NETWORK.wire() + ip + be_digits(port, NETWORK_PORT as nat)
}

/// The bytes of a version payload with the given fields, in wire order:
/// version, services, timestamp, the receiving and the sending address,
/// nonce, the user agent behind one byte for its length, start height and
/// the relay flag. Numbers are little-endian, except the services and what
/// an address holds.
pub open spec fn assemble(fields: VersionFields) -> Seq<u8> {
    le_digits(twos_complement(fields.version, 4), 4) + be_digits(
        fields.services,
        NETWORK_SERVICES as nat,
    ) + le_digits(twos_complement(fields.timestamp, 8), 8) + embedded_address(
        fields.recv_ip,
        fields.recv_port,
    ) + embedded_address(fields.from_ip, fields.from_port) + le_digits(fields.nonce, 8)
        + seq![fields.user_agent.len() as u8] + fields.user_agent + le_digits(
        twos_complement(fields.start_height, 4),
        4,
    ) + seq![
        if fields.relay {
            1u8
        } else {
            0u8
        },
    ]
}

/// The assembled bytes are 86 bytes of fixed fields and the user agent.
pub proof fn lemma_assemble_len(fields: VersionFields)
    requires
        fields.recv_ip.len() == NETWORK_IPvXX,
        fields.from_ip.len() == NETWORK_IPvXX,
    ensures
        assemble(fields).len() == EMPTY_VERSION_SIZE + fields.user_agent.len(),
{
    lemma_be_digits_len(twos_complement(fields.version, 4), 4);
    lemma_be_digits_len(fields.services, 8);
    lemma_be_digits_len(twos_complement(fields.timestamp, 8), 8);
    lemma_be_digits_len(Services::NODE_NETWORK.spec_bits() as nat, 8);
    lemma_be_digits_len(fields.recv_port, 2);
    lemma_be_digits_len(fields.from_port, 2);
    lemma_be_digits_len(fields.nonce, 8);
    lemma_be_digits_len(twos_complement(fields.start_height, 4), 4);
}

/// A version payload under construction.
pub struct PayloadBuilder {
    version: i32,
    services: u64,
    timestamp: i64,
    recv_ip: [u8; NETWORK_IPvXX],
    recv_port: u16,
    from_ip: [u8; NETWORK_IPvXX],
    from_port: u16,
    nonce: u64,
    user_agent: Vec<u8>,
    start_height: i32,
    relay: bool,
}

impl View for PayloadBuilder {
    type V = VersionFields;

    closed spec fn view(&self) -> VersionFields {
        VersionFields {
            version: self.version as int,
            services: self.services as nat,
            timestamp: self.timestamp as int,
            recv_ip: self.recv_ip@,
            recv_port: self.recv_port as nat,
            from_ip: self.from_ip@,
            from_port: self.from_port as nat,
            nonce: self.nonce as nat,
            user_agent: self.user_agent@,
            start_height: self.start_height as int,
            relay: self.relay,
        }
    }
}

impl PayloadBuilder {
    #[verifier::type_invariant]
    spec fn user_agent_fits(&self) -> bool {
        self.user_agent@.len() <= MAX_USER_AGENT_SIZE
    }

    /// A builder with every field at its default.
    pub fn init() -> (builder: PayloadBuilder)
        ensures
            builder@ == default_fields(),
    {
        let user_agent = vstd::slice::slice_to_vec(DEFAULT_USER_AGENT.as_slice());
        PayloadBuilder {
            version: PROTOCOL_VERSION,
            services: 1,
            timestamp: 0,
            recv_ip: DEFAULT_IPADDR,
            recv_port: DEFAULT_PORT,
            from_ip: DEFAULT_IPADDR,
            from_port: DEFAULT_PORT,
            nonce: 0,
            user_agent,
            start_height: 0,
            relay: false,
        }
    }

    /// Sets the protocol version.
    pub fn with_version(self, version: i32) -> (result: Result<PayloadBuilder, ErrorSide>)
        ensures
            result matches Ok(builder) && builder@ == (VersionFields {
                version: version as int,
                ..self@
            }),
    {
        let mut builder = self;
        proof {
            use_type_invariant(&builder);
        }
        builder.version = version;
        Ok(builder)
    }

    /// Sets the services that this node offers, as the bitwise or of their
    /// flags.
    pub fn with_services(self, services: u64) -> (result: Result<PayloadBuilder, ErrorSide>)
        ensures
            result matches Ok(builder) && builder@ == (VersionFields {
                services: services as nat,
                ..self@
            }),
    {
        let mut builder = self;
        proof {
            use_type_invariant(&builder);
        }
        builder.services = services;
        Ok(builder)
    }

    /// Sets the time of the announcement, in seconds since the epoch.
    pub fn with_timestamp(self, timestamp: i64) -> (result: Result<PayloadBuilder, ErrorSide>)
        ensures
            result matches Ok(builder) && builder@ == (VersionFields {
                timestamp: timestamp as int,
                ..self@
            }),
    {
        let mut builder = self;
        proof {
            use_type_invariant(&builder);
        }
        builder.timestamp = timestamp;
        Ok(builder)
    }

    /// Sets the address of the node that receives the payload. Anything
    /// but sixteen bytes is refused, with the count in the error.
    pub fn with_addr_recv(self, ip: &[u8]) -> (result: Result<PayloadBuilder, ErrorSide>)
        ensures
            ip@.len() == NETWORK_IPvXX ==> (result matches Ok(builder) && builder@ == (
            VersionFields { recv_ip: ip@, ..self@ })),
            ip@.len() != NETWORK_IPvXX ==> (result matches Err(error) && error
                == ErrorSide::SizeMismatch(ip.len())),
    {
        if ip.len() != NETWORK_IPvXX {
            return Err(ErrorSide::SizeMismatch(ip.len()));
        }
        let mut builder = self;
        proof {
            use_type_invariant(&builder);
        }
        builder.recv_ip = read_field(ip, 0);
        proof {
            assert(ip@.subrange(0, 16) =~= ip@);
        }
        Ok(builder)
    }

    /// Sets the port of the node that receives the payload.
    pub fn with_addr_recv_port(self, port: u16) -> (result: Result<PayloadBuilder, ErrorSide>)
        ensures
            result matches Ok(builder) && builder@ == (VersionFields {
                recv_port: port as nat,
                ..self@
            }),
    {
        let mut builder = self;
        proof {
            use_type_invariant(&builder);
        }
        builder.recv_port = port;
        Ok(builder)
    }

    /// Sets the address of the node that sends the payload. Anything but
    /// sixteen bytes is refused, with the count in the error.
    pub fn with_addr_from(self, ip: &[u8]) -> (result: Result<PayloadBuilder, ErrorSide>)
        ensures
            ip@.len() == NETWORK_IPvXX ==> (result matches Ok(builder) && builder@ == (
            VersionFields { from_ip: ip@, ..self@ })),
            ip@.len() != NETWORK_IPvXX ==> (result matches Err(error) && error
                == ErrorSide::SizeMismatch(ip.len())),
    {
        if ip.len() != NETWORK_IPvXX {
            return Err(ErrorSide::SizeMismatch(ip.len()));
        }
        let mut builder = self;
        proof {
            use_type_invariant(&builder);
        }
        builder.from_ip = read_field(ip, 0);
        proof {
            assert(ip@.subrange(0, 16) =~= ip@);
        }
        Ok(builder)
    }

    /// Sets the port of the node that sends the payload.
    pub fn with_addr_from_port(self, port: u16) -> (result: Result<PayloadBuilder, ErrorSide>)
        ensures
            result matches Ok(builder) && builder@ == (VersionFields {
                from_port: port as nat,
                ..self@
            }),
    {
        let mut builder = self;
        proof {
            use_type_invariant(&builder);
        }
        builder.from_port = port;
        Ok(builder)
    }

    /// Sets the nonce that tells a connection to oneself apart.
    pub fn with_nonce(self, nonce: u64) -> (result: Result<PayloadBuilder, ErrorSide>)
        ensures
            result matches Ok(builder) && builder@ == (VersionFields {
                nonce: nonce as nat,
                ..self@
            }),
    {
        let mut builder = self;
        proof {
            use_type_invariant(&builder);
        }
        builder.nonce = nonce;
        Ok(builder)
    }

    /// Sets the user agent; an empty one stands for none. One too long for
    /// its length byte is refused, with its length in the error. Whether
    /// the payload then has a size that the format allows is decided by
    /// `build`.
    pub fn with_user_agent(self, user_agent: &[u8]) -> (result: Result<PayloadBuilder, ErrorSide>)
        ensures
            user_agent@.len() <= MAX_USER_AGENT_SIZE ==> (result matches Ok(builder) && builder@
                == (VersionFields { user_agent: user_agent@, ..self@ })),
            user_agent@.len() > MAX_USER_AGENT_SIZE ==> (result matches Err(error) && error
                == ErrorSide::SizeMismatch(user_agent.len())),
    {
        if user_agent.len() > MAX_USER_AGENT_SIZE {
            return Err(ErrorSide::SizeMismatch(user_agent.len()));
        }
        let mut builder = self;
        proof {
            use_type_invariant(&builder);
        }
        builder.user_agent = vstd::slice::slice_to_vec(user_agent);
        Ok(builder)
    }

    /// Sets the height of the best block that this node knows.
    pub fn with_start_height(self, start_height: i32) -> (result: Result<
        PayloadBuilder,
        ErrorSide,
    >)
        ensures
            result matches Ok(builder) && builder@ == (VersionFields {
                start_height: start_height as int,
                ..self@
            }),
    {
        let mut builder = self;
        proof {
            use_type_invariant(&builder);
        }
        builder.start_height = start_height;
        Ok(builder)
    }

    /// Sets whether the peer should announce transactions.
    pub fn with_relay(self, relay: bool) -> (result: Result<PayloadBuilder, ErrorSide>)
        ensures
            result matches Ok(builder) && builder@ == (VersionFields { relay: relay, ..self@ }),
    {
        let mut builder = self;
        proof {
            use_type_invariant(&builder);
        }
        builder.relay = relay;
        Ok(builder)
    }

    /// Assembles the fields and hands out the payload, if the assembled
    /// bytes have one of the two sizes that the format fixes: the size
    /// without a user agent, or the size with one of twelve bytes. Any
    /// other size is refused, with that size in the error; nothing is
    /// padded or cut. The builder is used up either way.
    pub fn build(self) -> (result: Result<VersionPayload, ErrorSide>)
        ensures
            assemble(self@).len() == EMPTY_VERSION_SIZE + self@.user_agent.len(),
            (assemble(self@).len() == EMPTY_VERSION_SIZE || assemble(self@).len()
                == CUSTOM_VERSION_SIZE) ==> (result matches Ok(payload) && payload.wire()
                == assemble(self@)),
            (assemble(self@).len() != EMPTY_VERSION_SIZE && assemble(self@).len()
                != CUSTOM_VERSION_SIZE) ==> (result matches Err(error) && error
                == ErrorSide::SizeMismatch(assemble(self@).len() as usize)),
    {
        proof {
            use_type_invariant(&self);
            lemma_assemble_len(self@);
        }
        let mut addr_recv = NetworkAddress::for_version(self.recv_port);
        addr_recv.set_ip(&self.recv_ip)?;
        let mut addr_from = NetworkAddress::for_version(self.from_port);
        addr_from.set_ip(&self.from_ip)?;
        proof {
            addr_recv.lemma_version_layout_wire();
            addr_from.lemma_version_layout_wire();
        }
        let mut recv_bytes = addr_recv.to_be_bytes();
        let mut from_bytes = addr_from.to_be_bytes();
        assert(recv_bytes@ =~= embedded_address(self@.recv_ip, self@.recv_port));
        assert(from_bytes@ =~= embedded_address(self@.from_ip, self@.from_port));

        let mut bytes: Vec<u8> = Vec::new();
        bytes.extend_from_slice(i32_to_le_bytes(self.version).as_slice());
        bytes.extend_from_slice(u64_to_be_bytes(self.services).as_slice());
        bytes.extend_from_slice(i64_to_le_bytes(self.timestamp).as_slice());
        bytes.append(&mut recv_bytes);
        bytes.append(&mut from_bytes);
        bytes.extend_from_slice(u64_to_le_bytes(self.nonce).as_slice());
        bytes.push(self.user_agent.len() as u8);
        bytes.extend_from_slice(self.user_agent.as_slice());
        bytes.extend_from_slice(i32_to_le_bytes(self.start_height).as_slice());
        bytes.push(
            if self.relay {
                1
            } else {
                0
            },
        );
        assert(bytes@ =~= assemble(self@));

        let size = bytes.len();
        if size == EMPTY_VERSION_SIZE || size == CUSTOM_VERSION_SIZE {
            Ok(VersionPayload::from_assembled(bytes))
        } else {
            Err(ErrorSide::SizeMismatch(size))
        }
    }
}

} // verus!
