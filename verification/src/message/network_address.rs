//! Network addresses as they travel inside messages.
//!
//! An address is four optional fields in a fixed order: time, services,
//! address and port. The version message leaves the time out, every other
//! message carries it; a field that is absent takes no room on the wire.

use crate::endian::{
    be_digits, lemma_reverse_concat, reversed_array, reversed_bytes, u16_to_be_bytes,
    u64_to_be_bytes,
};
use crate::errors::ErrorSide;
use crate::traits::{EndianWrite, Length};
use vstd::prelude::*;

verus! {

/// Width of the time field.
pub const NETWORK_TIME: usize = 4;

/// Width of the services field.
pub const NETWORK_SERVICES: usize = 8;

/// Width of the address field, for IPv4 and IPv6 alike.
#[allow(non_upper_case_globals)]
pub const NETWORK_IPvXX: usize = 16;

/// Width of the port field.
pub const NETWORK_PORT: usize = 2;

/// The loopback address 127.0.0.1, mapped into IPv6.
pub const DEFAULT_IPADDR: [u8; NETWORK_IPvXX] =
    [0, 0, 0, 0, 0, 0, 0, 0, 0, 0, 0xff, 0xff, 127, 0, 0, 1];

/// The unspecified address 0.0.0.0, mapped into IPv6.
pub const UNSPECIFIED_IPADDR: [u8; NETWORK_IPvXX] =
    [0, 0, 0, 0, 0, 0, 0, 0, 0, 0, 0xff, 0xff, 0, 0, 0, 0];

/// The port a node listens on unless told otherwise.
pub const DEFAULT_PORT: u16 = 8333;

/// The sixteen bytes that carry the IPv4 address `octets` in an IPv6-shaped
/// field: ten zero bytes, two bytes `0xff`, then the four octets.
pub open spec fn ipv4_mapped(octets: Seq<u8>) -> Seq<u8> {
    seq![0u8, 0u8, 0u8, 0u8, 0u8, 0u8, 0u8, 0u8, 0u8, 0u8, 0xffu8, 0xffu8] + octets
}

/// The two address constants are what the mapping gives for 127.0.0.1 and
/// for 0.0.0.0.
pub proof fn lemma_constants_are_mapped()
    ensures
        DEFAULT_IPADDR@ == ipv4_mapped(seq![127u8, 0u8, 0u8, 1u8]),
        UNSPECIFIED_IPADDR@ == ipv4_mapped(seq![0u8, 0u8, 0u8, 0u8]),
{
    assert(DEFAULT_IPADDR@ =~= ipv4_mapped(seq![127u8, 0u8, 0u8, 1u8]));
    assert(UNSPECIFIED_IPADDR@ =~= ipv4_mapped(seq![0u8, 0u8, 0u8, 0u8]));
}

/// An IP address. Either kind is stored in sixteen bytes, an IPv4 address
/// in its IPv6-mapped form; the tag records which kind it stands for.
#[derive(Clone, Copy, Debug, PartialEq, Eq)]
pub enum IP {
    V4([u8; NETWORK_IPvXX]),
    V6([u8; NETWORK_IPvXX]),
}

impl IP {
    /// The sixteen stored bytes.
    pub open spec fn octets(&self) -> Seq<u8> {
        match *self {
            IP::V4(bytes) => bytes@,
            IP::V6(bytes) => bytes@,
        }
    }

    /// The IPv4 address `octets`, stored in its IPv6-mapped form.
    pub fn from_v4(octets: [u8; 4]) -> (ip: IP)
        ensures
            ip is V4,
            ip.octets() == ipv4_mapped(octets@),
    {
        let bytes =
            [0, 0, 0, 0, 0, 0, 0, 0, 0, 0, 0xff, 0xff, octets[0], octets[1], octets[2], octets[3]];
        proof {
            assert(bytes@ =~= ipv4_mapped(octets@));
        }
        IP::V4(bytes)
    }
}

impl EndianWrite for IP {
    type Output = [u8; NETWORK_IPvXX];

    open spec fn wire(&self) -> Seq<u8> {
        self.octets()
    }

    fn to_le_bytes(&self) -> (out: [u8; NETWORK_IPvXX]) {
        match self {
            IP::V4(network_address) => reversed_array(network_address),
            IP::V6(network_address) => reversed_array(network_address),
        }
    }

    fn to_be_bytes(&self) -> (out: [u8; NETWORK_IPvXX]) {
        match self {
            IP::V4(network_address) => *network_address,
            IP::V6(network_address) => *network_address,
        }
    }
}

/// One field of a network address: present with its bytes, or absent.
#[derive(Clone, Copy, Debug, PartialEq, Eq)]
pub enum NetworkOptions {
    NetworkTime(Option<[u8; NETWORK_TIME]>),
    NetworkServices(Option<[u8; NETWORK_SERVICES]>),
    NetworkIpvXX(Option<[u8; NETWORK_IPvXX]>),
    NetworkPort(Option<[u8; NETWORK_PORT]>),
}

impl NetworkOptions {
    /// Whether the field carries bytes.
    pub open spec fn present(&self) -> bool {
        match *self {
            NetworkOptions::NetworkTime(option) => option is Some,
            NetworkOptions::NetworkServices(option) => option is Some,
            NetworkOptions::NetworkIpvXX(option) => option is Some,
            NetworkOptions::NetworkPort(option) => option is Some,
        }
    }

    /// The width that the format fixes for this kind of field.
    pub open spec fn declared_width(&self) -> nat {
        match *self {
            NetworkOptions::NetworkTime(_) => NETWORK_TIME as nat,
            NetworkOptions::NetworkServices(_) => NETWORK_SERVICES as nat,
            NetworkOptions::NetworkIpvXX(_) => NETWORK_IPvXX as nat,
            NetworkOptions::NetworkPort(_) => NETWORK_PORT as nat,
        }
    }

    /// The room the field takes on the wire: its declared width if it is
    /// present, none if it is absent.
    pub open spec fn width(&self) -> nat {
        if self.present() {
            self.declared_width()
        } else {
            0
        }
    }

    /// An absent field serializes to nothing, a present one to exactly the
    /// width declared for its kind.
    pub proof fn lemma_wire_width(self)
        ensures
            !self.present() ==> self.wire() == Seq::<u8>::empty(),
            self.present() ==> self.wire().len() == self.declared_width(),
            self.wire().len() == self.width(),
    {
    }
}

impl Length for NetworkOptions {
    fn len(&self) -> (n: usize)
        ensures
            n == self.width(),
    {
        match self {
            NetworkOptions::NetworkTime(option) => match option {
                None => 0,
                Some(serial_layout) => serial_layout.len(),
            },
            NetworkOptions::NetworkServices(option) => match option {
                None => 0,
                Some(serial_layout) => serial_layout.len(),
            },
            NetworkOptions::NetworkIpvXX(option) => match option {
                None => 0,
                Some(serial_layout) => serial_layout.len(),
            },
            NetworkOptions::NetworkPort(option) => match option {
                None => 0,
                Some(serial_layout) => serial_layout.len(),
            },
        }
    }
}

impl EndianWrite for NetworkOptions {
    type Output = Vec<u8>;

    open spec fn wire(&self) -> Seq<u8> {
        match *self {
            NetworkOptions::NetworkTime(Some(bytes)) => bytes@,
            NetworkOptions::NetworkServices(Some(bytes)) => bytes@,
            NetworkOptions::NetworkIpvXX(Some(bytes)) => bytes@,
            NetworkOptions::NetworkPort(Some(bytes)) => bytes@,
            _ => Seq::empty(),
        }
    }

    fn to_le_bytes(&self) -> (out: Vec<u8>) {
        let options = self.to_be_bytes();
        reversed_bytes(options.as_slice())
    }

    fn to_be_bytes(&self) -> (out: Vec<u8>) {
        let options: Vec<u8> = match self {
            NetworkOptions::NetworkTime(option) => match option {
                None => Vec::new(),
                Some(serial_layout) => vstd::slice::slice_to_vec(serial_layout.as_slice()),
            },
            NetworkOptions::NetworkServices(option) => match option {
                None => Vec::new(),
                Some(serial_layout) => vstd::slice::slice_to_vec(serial_layout.as_slice()),
            },
            NetworkOptions::NetworkIpvXX(option) => match option {
                None => Vec::new(),
                Some(serial_layout) => vstd::slice::slice_to_vec(serial_layout.as_slice()),
            },
            NetworkOptions::NetworkPort(option) => match option {
                None => Vec::new(),
                Some(serial_layout) => vstd::slice::slice_to_vec(serial_layout.as_slice()),
            },
        };
        options
    }
}

/// The wire bytes of the first `count` fields of `slots`, in order.
pub open spec fn concat_wire(slots: Seq<NetworkOptions>, count: nat) -> Seq<u8>
    decreases count,
{
    if count == 0 {
        Seq::empty()
    } else {
        concat_wire(slots, (count - 1) as nat) + slots[count - 1].wire()
    }
}

/// A network address: four fields in the order time, services, address,
/// port. `Version` is the layout inside a version message, `NonVersion` the
/// layout everywhere else; which fields are present decides the length.
#[derive(Clone, Copy, Debug, PartialEq, Eq)]
pub enum NetworkAddress {
    NonVersion([NetworkOptions; 4]),
    Version([NetworkOptions; 4]),
}

impl NetworkAddress {
    /// The four fields, whichever the layout.
    pub open spec fn slots(&self) -> Seq<NetworkOptions> {
        match *self {
            NetworkAddress::NonVersion(options) => options@,
            NetworkAddress::Version(options) => options@,
        }
    }

    /// The room the address takes on the wire: the room of its fields.
    pub open spec fn width(&self) -> nat {
        let slots = self.slots();
        slots[0].width() + slots[1].width() + slots[2].width() + slots[3].width()
    }

    /// The length of an address, told from which fields are present,
    /// is the number of bytes that it serializes to.
    pub proof fn lemma_wire_width(self)
        ensures
            self.wire().len() == self.width(),
    {
        let slots = self.slots();
        slots[0].lemma_wire_width();
        slots[1].lemma_wire_width();
        slots[2].lemma_wire_width();
        slots[3].lemma_wire_width();
    }

    /// Each position holds the kind of field that belongs there.
    pub open spec fn well_formed(&self) -> bool {
        let slots = self.slots();
        &&& slots[0] is NetworkTime
        &&& slots[1] is NetworkServices
        &&& slots[2] is NetworkIpvXX
        &&& slots[3] is NetworkPort
    }

    /// The layout a version message embeds: no time, and services, address
    /// and port all present.
    pub open spec fn version_layout(&self) -> bool {
        let slots = self.slots();
        &&& *self is Version
        &&& self.well_formed()
        &&& !slots[0].present()
        &&& slots[1].present()
        &&& slots[2].present()
        &&& slots[3].present()
    }

    /// An address in the version layout is its services, its address and
    /// its port, 26 bytes in all.
    pub proof fn lemma_version_layout_wire(self)
        requires
            self.version_layout(),
        ensures
            self.wire() == self.slots()[1].wire() + self.slots()[2].wire() + self.slots()[3].wire(),
            self.wire().len() == NETWORK_SERVICES + NETWORK_IPvXX + NETWORK_PORT,
    {
        let slots = self.slots();
        assert(self.wire() =~= slots[1].wire() + slots[2].wire() + slots[3].wire());
    }

    /// The little-endian form of an address is its fields in reverse order,
    /// each read backwards: the whole buffer is reversed, not each field
    /// encoded on its own.
    pub proof fn lemma_wire_reversed(self)
        ensures
            self.wire().reverse() == self.slots()[3].wire().reverse()
                + self.slots()[2].wire().reverse() + self.slots()[1].wire().reverse()
                + self.slots()[0].wire().reverse(),
    {
        let slots = self.slots();
        let time = slots[0].wire();
        let services = slots[1].wire();
        let address = slots[2].wire();
        let port = slots[3].wire();
        lemma_reverse_concat(time + services + address, port);
        lemma_reverse_concat(time + services, address);
        lemma_reverse_concat(time, services);
        assert(port.reverse() + (address.reverse() + (services.reverse() + time.reverse()))
            =~= port.reverse() + address.reverse() + services.reverse() + time.reverse());
    }

    /// An address in the version layout: no time, the `NODE_NETWORK` flag,
    /// the loopback address and the given port, most significant byte first.
    pub fn for_version(port: u16) -> (address: NetworkAddress)
        ensures
            address.version_layout(),
            address.slots()[1].wire() == Services::NODE_NETWORK.wire(),
            address.slots()[2].wire() == DEFAULT_IPADDR@,
            address.slots()[3].wire() == be_digits(port as nat, NETWORK_PORT as nat),
    {
        NetworkAddress::Version(
            [
                NetworkOptions::NetworkTime(None),
                NetworkOptions::NetworkServices(Some(Services::NODE_NETWORK.to_be_bytes())),
                NetworkOptions::NetworkIpvXX(Some(DEFAULT_IPADDR)),
                NetworkOptions::NetworkPort(Some(u16_to_be_bytes(port))),
            ],
        )
    }

    /// Replaces the address field, the third of the four, by `ip`, and
    /// hands `ip` back. The layout and the other three fields stay as they
    /// are.
    pub fn set_ip(&mut self, ip: &[u8; NETWORK_IPvXX]) -> (result: Result<
        [u8; NETWORK_IPvXX],
        ErrorSide,
    >)
        ensures
            result == Ok::<[u8; NETWORK_IPvXX], ErrorSide>(*ip),
            *final(self) is Version <==> *old(self) is Version,
            final(self).slots() == old(self).slots().update(
                2,
                NetworkOptions::NetworkIpvXX(Some(*ip)),
            ),
            old(self).well_formed() ==> final(self).well_formed(),
    {
        match self {
            NetworkAddress::Version(options) => {
                options[2] = NetworkOptions::NetworkIpvXX(Some(*ip));
            },
            NetworkAddress::NonVersion(options) => {
                options[2] = NetworkOptions::NetworkIpvXX(Some(*ip));
            },
        }
        Ok(*ip)
    }
}

impl Length for NetworkAddress {
    fn len(&self) -> (n: usize)
        ensures
            n == self.width(),
    {
        let options = match self {
            NetworkAddress::NonVersion(options) => options,
            NetworkAddress::Version(options) => options,
        };
        let mut total: usize = 0;
        let mut i: usize = 0;
        while i < 4
            invariant
                i <= 4,
                options@ == self.slots(),
                total == concat_wire(options@, i as nat).len(),
                total <= 16 * i,
            decreases 4 - i,
        {
            total += options[i].len();
            i += 1;
        }
        proof {
            reveal_with_fuel(concat_wire, 5);
            assert(concat_wire(options@, 4) =~= self.wire());
            self.lemma_wire_width();
        }
        total
    }
}

impl EndianWrite for NetworkAddress {
    type Output = Vec<u8>;

    open spec fn wire(&self) -> Seq<u8> {
        let slots = self.slots();
        slots[0].wire() + slots[1].wire() + slots[2].wire() + slots[3].wire()
    }

    fn to_le_bytes(&self) -> (out: Vec<u8>) {
        let options = self.to_be_bytes();
        reversed_bytes(options.as_slice())
    }

    fn to_be_bytes(&self) -> (out: Vec<u8>) {
        let options = match self {
            NetworkAddress::NonVersion(options) => options,
            NetworkAddress::Version(options) => options,
        };
        let mut out: Vec<u8> = Vec::new();
        let mut i: usize = 0;
        while i < 4
            invariant
                i <= 4,
                options@ == self.slots(),
                out@ == concat_wire(options@, i as nat),
            decreases 4 - i,
        {
            let mut field = options[i].to_be_bytes();
            out.append(&mut field);
            i += 1;
        }
        proof {
            reveal_with_fuel(concat_wire, 5);
            assert(concat_wire(options@, 4) =~= self.wire());
        }
        out
    }
}

/// A capability that a node advertises. One value is one flag; a caller who
/// needs several combines their `bits` with bitwise or. The number of a
/// flag is what `bits` returns: the place of a variant in this list says
/// nothing about it.
#[allow(non_camel_case_types)]
#[derive(Clone, Copy, Debug, PartialEq, Eq)]
pub enum Services {
    NODE_NETWORK,
    NODE_GETUTXO,
    NODE_BLOOM,
    NODE_WITNESS,
    NODE_XTHIN,
    NODE_COMPACT_FILTERS,
    NODE_NETWORK_LIMITED,
}

impl Services {
    /// The bit that stands for the flag, for use in contracts.
    pub open spec fn spec_bits(&self) -> i64 {
        match *self {
            Services::NODE_NETWORK => 0x01,
            Services::NODE_GETUTXO => 0x02,
            Services::NODE_BLOOM => 0x04,
            Services::NODE_WITNESS => 0x08,
            Services::NODE_XTHIN => 0x10,
            Services::NODE_COMPACT_FILTERS => 0x40,
            Services::NODE_NETWORK_LIMITED => 0x0400,
        }
    }

    /// The bit that stands for the flag, widened to 64 bits.
    #[verifier::when_used_as_spec(spec_bits)]
    pub fn bits(&self) -> (bits: i64)
        ensures
            bits == self.spec_bits(),
    {
        match self {
            Services::NODE_NETWORK => 0x01,
            Services::NODE_GETUTXO => 0x02,
            Services::NODE_BLOOM => 0x04,
            Services::NODE_WITNESS => 0x08,
            Services::NODE_XTHIN => 0x10,
            Services::NODE_COMPACT_FILTERS => 0x40,
            Services::NODE_NETWORK_LIMITED => 0x0400,
        }
    }
}

impl EndianWrite for Services {
    type Output = [u8; NETWORK_SERVICES];

    open spec fn wire(&self) -> Seq<u8> {
        be_digits(self.spec_bits() as nat, NETWORK_SERVICES as nat)
    }

    fn to_le_bytes(&self) -> (out: [u8; NETWORK_SERVICES]) {
        let buf = self.to_be_bytes();
        reversed_array(&buf)
    }

    fn to_be_bytes(&self) -> (out: [u8; NETWORK_SERVICES]) {
        let a: i64 = self.bits();
        u64_to_be_bytes(a as u64)
    }
}

impl Default for NetworkAddress {
    /// The address of a node on this machine, in the version layout: no
    /// time, the `NODE_NETWORK` flag, the loopback address and the default
    /// port.
    fn default() -> (address: NetworkAddress)
        ensures
            address.version_layout(),
            address.slots()[1].wire() == Services::NODE_NETWORK.wire(),
            address.slots()[2].wire() == DEFAULT_IPADDR@,
            address.slots()[3].wire() == be_digits(DEFAULT_PORT as nat, NETWORK_PORT as nat),
    {
        NetworkAddress::for_version(DEFAULT_PORT)
    }
}

} // verus!
