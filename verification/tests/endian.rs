use p2p_handshake::endian::{
    i32_to_le_bytes, i64_to_le_bytes, read_field, reversed_array, reversed_bytes, u16_to_be_bytes,
    u32_from_le_bytes, u32_to_le_bytes, u64_to_be_bytes, u64_to_le_bytes, write_field,
};

#[test]
fn port_is_written_most_significant_byte_first() {
    assert_eq!(u16_to_be_bytes(8333), [0x20, 0x8d]);
    assert_eq!(u16_to_be_bytes(0), [0, 0]);
    assert_eq!(u16_to_be_bytes(u16::MAX), [0xff, 0xff]);
    assert_eq!(u16_to_be_bytes(0x0102), [1, 2]);
}

#[test]
fn u32_little_endian_matches_std() {
    for value in [0u32, 1, 98, 255, 256, 0x0102_0304, u32::MAX] {
        assert_eq!(u32_to_le_bytes(value), value.to_le_bytes());
    }
    assert_eq!(u32_to_le_bytes(98), [98, 0, 0, 0]);
    assert_eq!(u32_to_le_bytes(0x0102_0304), [4, 3, 2, 1]);
}

#[test]
fn u32_reads_back_what_was_written() {
    for value in [0u32, 1, 98, 255, 256, 65_536, 0x0102_0304, u32::MAX] {
        assert_eq!(u32_from_le_bytes(&u32_to_le_bytes(value)), value);
    }
    assert_eq!(u32_from_le_bytes(&[0x0a, 0, 0, 0]), 10);
    assert_eq!(u32_from_le_bytes(&[0, 1, 0, 0]), 256);
    assert_eq!(u32_from_le_bytes(&[0xff, 0xff, 0xff, 0xff]), u32::MAX);
}

#[test]
fn u64_big_endian_matches_std() {
    for value in [0u64, 1, 0x40, 0x0400, 0x0102_0304_0506_0708, u64::MAX] {
        assert_eq!(u64_to_be_bytes(value), value.to_be_bytes());
    }
    assert_eq!(u64_to_be_bytes(1), [0, 0, 0, 0, 0, 0, 0, 1]);
}

#[test]
fn u64_little_endian_matches_std() {
    for value in [0u64, 1, 0x0102_0304_0506_0708, u64::MAX] {
        assert_eq!(u64_to_le_bytes(value), value.to_le_bytes());
    }
    assert_eq!(u64_to_le_bytes(0x0102_0304_0506_0708), [8, 7, 6, 5, 4, 3, 2, 1]);
}

#[test]
fn signed_numbers_are_written_in_twos_complement() {
    assert_eq!(i32_to_le_bytes(70015), [0x7f, 0x11, 0x01, 0x00]);
    assert_eq!(i32_to_le_bytes(-1), [0xff, 0xff, 0xff, 0xff]);
    assert_eq!(i32_to_le_bytes(-2), [0xfe, 0xff, 0xff, 0xff]);
    for value in [0i32, 1, -1, 70015, i32::MIN, i32::MAX] {
        assert_eq!(i32_to_le_bytes(value), value.to_le_bytes());
    }
    assert_eq!(i64_to_le_bytes(-1), [0xff; 8]);
    for value in [0i64, 1, -1, 1_700_000_000, i64::MIN, i64::MAX] {
        assert_eq!(i64_to_le_bytes(value), value.to_le_bytes());
    }
}

#[test]
fn reversing_reads_backwards() {
    assert_eq!(reversed_array(&[1u8, 2, 3, 4]), [4, 3, 2, 1]);
    assert_eq!(reversed_array::<0>(&[]), [0u8; 0]);
    assert_eq!(reversed_array(&[7u8]), [7]);
    assert_eq!(reversed_bytes(&[1, 2, 3]), vec![3, 2, 1]);
    assert_eq!(reversed_bytes(&[]), Vec::<u8>::new());
    assert_eq!(reversed_bytes(&reversed_bytes(&[9, 8, 7, 6])), vec![9, 8, 7, 6]);
}

#[test]
fn a_field_is_written_in_place() {
    let mut buffer = [0xaau8; 8];
    write_field(&mut buffer, 2, &[1u8, 2, 3]);
    assert_eq!(buffer, [0xaa, 0xaa, 1, 2, 3, 0xaa, 0xaa, 0xaa]);
    write_field(&mut buffer, 0, &[9u8, 9]);
    assert_eq!(buffer, [9, 9, 1, 2, 3, 0xaa, 0xaa, 0xaa]);
    write_field(&mut buffer, 7, &[5u8]);
    assert_eq!(buffer, [9, 9, 1, 2, 3, 0xaa, 0xaa, 5]);
    write_field(&mut buffer, 8, &[0u8; 0]);
    assert_eq!(buffer, [9, 9, 1, 2, 3, 0xaa, 0xaa, 5]);
}

#[test]
fn a_field_is_read_from_its_place() {
    let bytes = [10u8, 11, 12, 13, 14, 15];
    assert_eq!(read_field::<2>(&bytes, 0), [10, 11]);
    assert_eq!(read_field::<3>(&bytes, 3), [13, 14, 15]);
    assert_eq!(read_field::<6>(&bytes, 0), bytes);
    assert_eq!(read_field::<0>(&bytes, 6), [0u8; 0]);
}
