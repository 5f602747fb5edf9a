use dns_codec::wire::big_endian_bytes_to_u16;
use dns_codec::wire::big_endian_bytes_to_u32;
use dns_codec::wire::u16_to_big_endian_bytes;
use dns_codec::wire::u32_to_big_endian_bytes;

#[test]
fn u16_parse_works() {
    assert_eq!(66, big_endian_bytes_to_u16(&[0x00u8, 0x42u8]));
    assert_eq!(6025, big_endian_bytes_to_u16(&[0x17u8, 0x89u8]));
    assert_eq!(32902, big_endian_bytes_to_u16(&[0x80u8, 0x86u8]));
    // Ensure additional bytes are irrelevant
    assert_eq!(32902, big_endian_bytes_to_u16(&[0x80u8, 0x86u8, 0x00u8]));
}

#[test]
fn u32_parse_works() {
    assert_eq!(32902, big_endian_bytes_to_u32(&[0x00u8, 0x00u8, 0x80u8, 0x86u8]));
    assert_eq!(
        537034886,
        big_endian_bytes_to_u32(&[0x20u8, 0x02u8, 0x80u8, 0x86u8])
    );
}

#[test]
fn u16_serialize_works() {
    assert_eq!([0x00u8, 0x42u8], u16_to_big_endian_bytes(66));
    assert_eq!([0x17u8, 0x89u8], u16_to_big_endian_bytes(6025));
    assert_eq!([0x80u8, 0x86u8], u16_to_big_endian_bytes(32902));
}

#[test]
fn u32_serialize_works() {
    assert_eq!([0x00u8, 0x00u8, 0x80u8, 0x86u8], u32_to_big_endian_bytes(32902));
    assert_eq!(
        [0x20u8, 0x02u8, 0x80u8, 0x86u8],
        u32_to_big_endian_bytes(537034886)
    );
}

#[test]
fn u16_round_trips_through_bytes() {
    for n in [0u16, 1, 255, 256, 32902, 65535] {
        let bytes = u16_to_big_endian_bytes(n);
        assert_eq!(n, big_endian_bytes_to_u16(&bytes));
    }
}

#[test]
fn u32_round_trips_through_bytes() {
    for n in [0u32, 1, 255, 65536, 537034886, u32::MAX] {
        let bytes = u32_to_big_endian_bytes(n);
        assert_eq!(n, big_endian_bytes_to_u32(&bytes));
    }
}
