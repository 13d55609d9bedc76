use p2p_handshake::errors::ErrorSide;
use p2p_handshake::message::network_address::{
    NetworkAddress, NetworkOptions, Services, DEFAULT_IPADDR, DEFAULT_PORT, IP, NETWORK_IPvXX,
    NETWORK_PORT, NETWORK_SERVICES, NETWORK_TIME, UNSPECIFIED_IPADDR,
};
use p2p_handshake::traits::{EndianWrite, Length};

fn every_field() -> Vec<NetworkOptions> {
    vec![
        NetworkOptions::NetworkTime(None),
        NetworkOptions::NetworkTime(Some([1, 2, 3, 4])),
        NetworkOptions::NetworkServices(None),
        NetworkOptions::NetworkServices(Some([1, 2, 3, 4, 5, 6, 7, 8])),
        NetworkOptions::NetworkIpvXX(None),
        NetworkOptions::NetworkIpvXX(Some(DEFAULT_IPADDR)),
        NetworkOptions::NetworkPort(None),
        NetworkOptions::NetworkPort(Some([0x20, 0x8d])),
    ]
}

#[test]
fn field_widths_are_the_protocol_s() {
    assert_eq!(NETWORK_TIME, 4);
    assert_eq!(NETWORK_SERVICES, 8);
    assert_eq!(NETWORK_IPvXX, 16);
    assert_eq!(NETWORK_PORT, 2);
    assert_eq!(DEFAULT_PORT, 8333);
}

#[test]
fn default_address_is_loopback_mapped() {
    assert_eq!(DEFAULT_IPADDR, [0, 0, 0, 0, 0, 0, 0, 0, 0, 0, 0xff, 0xff, 127, 0, 0, 1]);
    assert_eq!(UNSPECIFIED_IPADDR, [0, 0, 0, 0, 0, 0, 0, 0, 0, 0, 0xff, 0xff, 0, 0, 0, 0]);
    assert_eq!(IP::from_v4([0, 0, 0, 0]), IP::V4(UNSPECIFIED_IPADDR));
}

#[test]
fn ipv4_is_stored_mapped() {
    let ip = IP::from_v4([192, 168, 1, 7]);
    assert_eq!(ip, IP::V4([0, 0, 0, 0, 0, 0, 0, 0, 0, 0, 0xff, 0xff, 192, 168, 1, 7]));
    assert_eq!(
        ip.to_be_bytes(),
        [0, 0, 0, 0, 0, 0, 0, 0, 0, 0, 0xff, 0xff, 192, 168, 1, 7]
    );
    assert_eq!(IP::from_v4([127, 0, 0, 1]).to_be_bytes(), DEFAULT_IPADDR);
}

#[test]
fn ip_bytes_in_both_orders() {
    let stored = [1u8, 2, 3, 4, 5, 6, 7, 8, 9, 10, 11, 12, 13, 14, 15, 16];
    let reversed = [16u8, 15, 14, 13, 12, 11, 10, 9, 8, 7, 6, 5, 4, 3, 2, 1];
    assert_eq!(IP::V4(stored).to_be_bytes(), stored);
    assert_eq!(IP::V6(stored).to_be_bytes(), stored);
    assert_eq!(IP::V4(stored).to_le_bytes(), reversed);
    assert_eq!(IP::V6(stored).to_le_bytes(), reversed);
}

#[test]
fn absent_field_is_empty_and_present_field_has_its_width() {
    assert_eq!(NetworkOptions::NetworkTime(None).to_be_bytes(), Vec::<u8>::new());
    assert_eq!(NetworkOptions::NetworkServices(None).to_be_bytes(), Vec::<u8>::new());
    assert_eq!(NetworkOptions::NetworkIpvXX(None).to_be_bytes(), Vec::<u8>::new());
    assert_eq!(NetworkOptions::NetworkPort(None).to_be_bytes(), Vec::<u8>::new());
    assert_eq!(NetworkOptions::NetworkTime(None).len(), 0);
    assert_eq!(NetworkOptions::NetworkServices(None).len(), 0);
    assert_eq!(NetworkOptions::NetworkIpvXX(None).len(), 0);
    assert_eq!(NetworkOptions::NetworkPort(None).len(), 0);

    assert_eq!(NetworkOptions::NetworkTime(Some([0; 4])).to_be_bytes().len(), NETWORK_TIME);
    assert_eq!(
        NetworkOptions::NetworkServices(Some([0; 8])).to_be_bytes().len(),
        NETWORK_SERVICES
    );
    assert_eq!(NetworkOptions::NetworkIpvXX(Some([0; 16])).to_be_bytes().len(), NETWORK_IPvXX);
    assert_eq!(NetworkOptions::NetworkPort(Some([0; 2])).to_be_bytes().len(), NETWORK_PORT);
}

#[test]
fn field_bytes_in_both_orders() {
    let time = NetworkOptions::NetworkTime(Some([1, 2, 3, 4]));
    assert_eq!(time.to_be_bytes(), vec![1, 2, 3, 4]);
    assert_eq!(time.to_le_bytes(), vec![4, 3, 2, 1]);
    let port = NetworkOptions::NetworkPort(Some([0x20, 0x8d]));
    assert_eq!(port.to_be_bytes(), vec![0x20, 0x8d]);
    assert_eq!(port.to_le_bytes(), vec![0x8d, 0x20]);
    assert_eq!(NetworkOptions::NetworkPort(None).to_le_bytes(), Vec::<u8>::new());
}

#[test]
fn length_agrees_with_serialization_for_fields() {
    for field in every_field() {
        assert_eq!(field.len(), field.to_be_bytes().len());
        assert_eq!(field.len(), field.to_le_bytes().len());
    }
}

#[test]
fn length_agrees_with_serialization_for_addresses() {
    let fields = every_field();
    for time in &fields[0..2] {
        for services in &fields[2..4] {
            for address in &fields[4..6] {
                for port in &fields[6..8] {
                    let slots = [*time, *services, *address, *port];
                    let version = NetworkAddress::Version(slots);
                    let other = NetworkAddress::NonVersion(slots);
                    assert_eq!(version.len(), version.to_be_bytes().len());
                    assert_eq!(other.len(), other.to_be_bytes().len());
                    assert_eq!(version.to_be_bytes(), other.to_be_bytes());
                    let sum: usize = slots.iter().map(|slot| slot.len()).sum();
                    assert_eq!(version.len(), sum);
                }
            }
        }
    }
}

#[test]
fn default_address_serializes_to_services_address_port() {
    let address = NetworkAddress::default();
    let expected: Vec<u8> = vec![
        0, 0, 0, 0, 0, 0, 0, 1, // NODE_NETWORK
        0, 0, 0, 0, 0, 0, 0, 0, 0, 0, 0xff, 0xff, 127, 0, 0, 1, // loopback, mapped
        0x20, 0x8d, // 8333
    ];
    assert_eq!(address.to_be_bytes(), expected);
    assert_eq!(address.len(), 26);
    assert_eq!(address.len(), NETWORK_SERVICES + NETWORK_IPvXX + NETWORK_PORT);
}

#[test]
fn default_address_is_the_version_layout() {
    assert_eq!(
        NetworkAddress::default(),
        NetworkAddress::Version([
            NetworkOptions::NetworkTime(None),
            NetworkOptions::NetworkServices(Some([0, 0, 0, 0, 0, 0, 0, 1])),
            NetworkOptions::NetworkIpvXX(Some(DEFAULT_IPADDR)),
            NetworkOptions::NetworkPort(Some([0x20, 0x8d])),
        ])
    );
    assert_eq!(NetworkAddress::default(), NetworkAddress::for_version(DEFAULT_PORT));
}

#[test]
fn version_address_takes_the_port() {
    let address = NetworkAddress::for_version(0x1234);
    let bytes = address.to_be_bytes();
    assert_eq!(bytes.len(), 26);
    assert_eq!(&bytes[24..], &[0x12, 0x34]);
    assert_eq!(&bytes[8..24], &DEFAULT_IPADDR);
}

#[test]
fn non_version_address_carries_the_time() {
    let address = NetworkAddress::NonVersion([
        NetworkOptions::NetworkTime(Some([0xde, 0xad, 0xbe, 0xef])),
        NetworkOptions::NetworkServices(Some(Services::NODE_NETWORK.to_be_bytes())),
        NetworkOptions::NetworkIpvXX(Some(DEFAULT_IPADDR)),
        NetworkOptions::NetworkPort(Some([0x20, 0x8d])),
    ]);
    assert_eq!(address.len(), 30);
    let bytes = address.to_be_bytes();
    assert_eq!(&bytes[..4], &[0xde, 0xad, 0xbe, 0xef]);
    assert_eq!(&bytes[4..], &NetworkAddress::default().to_be_bytes()[..]);
}

#[test]
fn little_endian_of_an_address_is_the_whole_buffer_reversed() {
    let address = NetworkAddress::default();
    let mut reversed = address.to_be_bytes();
    reversed.reverse();
    assert_eq!(address.to_le_bytes(), reversed);
    assert_eq!(&address.to_le_bytes()[..2], &[0x8d, 0x20]);
    assert_eq!(address.to_le_bytes()[25], 0);
    assert_eq!(address.to_le_bytes()[18], 1);
}

#[test]
fn set_ip_replaces_the_address_and_nothing_else() {
    let ip = [1u8, 2, 3, 4, 5, 6, 7, 8, 9, 10, 11, 12, 13, 14, 15, 16];
    let mut address = NetworkAddress::default();
    assert_eq!(address.set_ip(&ip), Ok(ip));
    assert_eq!(
        address,
        NetworkAddress::Version([
            NetworkOptions::NetworkTime(None),
            NetworkOptions::NetworkServices(Some([0, 0, 0, 0, 0, 0, 0, 1])),
            NetworkOptions::NetworkIpvXX(Some(ip)),
            NetworkOptions::NetworkPort(Some([0x20, 0x8d])),
        ])
    );
    assert_eq!(address.len(), 26);
    let bytes = address.to_be_bytes();
    assert_eq!(&bytes[..8], &[0, 0, 0, 0, 0, 0, 0, 1]);
    assert_eq!(&bytes[8..24], &ip);
    assert_eq!(&bytes[24..], &[0x20, 0x8d]);
}

#[test]
fn set_ip_keeps_the_layout() {
    let ip = [7u8; 16];
    let mut address = NetworkAddress::NonVersion([
        NetworkOptions::NetworkTime(Some([1, 2, 3, 4])),
        NetworkOptions::NetworkServices(None),
        NetworkOptions::NetworkIpvXX(None),
        NetworkOptions::NetworkPort(None),
    ]);
    let result: Result<[u8; 16], ErrorSide> = address.set_ip(&ip);
    assert_eq!(result, Ok(ip));
    assert_eq!(
        address,
        NetworkAddress::NonVersion([
            NetworkOptions::NetworkTime(Some([1, 2, 3, 4])),
            NetworkOptions::NetworkServices(None),
            NetworkOptions::NetworkIpvXX(Some(ip)),
            NetworkOptions::NetworkPort(None),
        ])
    );
    assert_eq!(address.len(), 20);
}

#[test]
fn service_flags_have_their_bits() {
    assert_eq!(Services::NODE_NETWORK.bits(), 0x01);
    assert_eq!(Services::NODE_GETUTXO.bits(), 0x02);
    assert_eq!(Services::NODE_BLOOM.bits(), 0x04);
    assert_eq!(Services::NODE_WITNESS.bits(), 0x08);
    assert_eq!(Services::NODE_XTHIN.bits(), 0x10);
    assert_eq!(Services::NODE_COMPACT_FILTERS.bits(), 0x40);
    assert_eq!(Services::NODE_NETWORK_LIMITED.bits(), 0x0400);
}

#[test]
fn service_flags_are_eight_bytes_big_endian() {
    assert_eq!(Services::NODE_NETWORK.to_be_bytes(), [0, 0, 0, 0, 0, 0, 0, 1]);
    assert_eq!(Services::NODE_GETUTXO.to_be_bytes(), [0, 0, 0, 0, 0, 0, 0, 2]);
    assert_eq!(Services::NODE_BLOOM.to_be_bytes(), [0, 0, 0, 0, 0, 0, 0, 4]);
    assert_eq!(Services::NODE_WITNESS.to_be_bytes(), [0, 0, 0, 0, 0, 0, 0, 8]);
    assert_eq!(Services::NODE_XTHIN.to_be_bytes(), [0, 0, 0, 0, 0, 0, 0, 0x10]);
    assert_eq!(Services::NODE_COMPACT_FILTERS.to_be_bytes(), [0, 0, 0, 0, 0, 0, 0, 0x40]);
    assert_eq!(Services::NODE_NETWORK_LIMITED.to_be_bytes(), [0, 0, 0, 0, 0, 0, 4, 0]);
    for flag in [
        Services::NODE_NETWORK,
        Services::NODE_GETUTXO,
        Services::NODE_BLOOM,
        Services::NODE_WITNESS,
        Services::NODE_XTHIN,
        Services::NODE_COMPACT_FILTERS,
        Services::NODE_NETWORK_LIMITED,
    ] {
        assert_eq!(flag.to_be_bytes(), flag.bits().to_be_bytes());
        assert_eq!(flag.to_le_bytes(), flag.bits().to_le_bytes());
    }
}

#[test]
fn service_flags_little_endian_is_reversed() {
    assert_eq!(Services::NODE_NETWORK.to_le_bytes(), [1, 0, 0, 0, 0, 0, 0, 0]);
    assert_eq!(Services::NODE_NETWORK_LIMITED.to_le_bytes(), [0, 4, 0, 0, 0, 0, 0, 0]);
}
