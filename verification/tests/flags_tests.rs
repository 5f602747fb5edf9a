use dns_codec::error::DecodeError;
use dns_codec::flags::DnsFlags;
use dns_codec::registry::DnsOpcode;
use dns_codec::registry::DnsRCode;

#[test]
fn flags_deserialize_works() {
    let flag_bytes = [0x01u8, 0x20u8];
    let expected = DnsFlags {
        qr_bit: false,
        opcode: DnsOpcode::Query,
        aa_bit: false,
        tc_bit: false,
        rd_bit: true,
        ra_bit: false,
        ad_bit: true,
        cd_bit: false,
        rcode: DnsRCode::NoError,
    };
    let result = DnsFlags::from_bytes(&flag_bytes).expect("Unexpected error");
    assert_eq!(expected, result);

    let flag_bytes = [0xacu8, 0x23u8];
    let expected = DnsFlags {
        qr_bit: true,
        opcode: DnsOpcode::Update,
        aa_bit: true,
        tc_bit: false,
        rd_bit: false,
        ra_bit: false,
        ad_bit: true,
        cd_bit: false,
        rcode: DnsRCode::NXDomain,
    };
    let result = DnsFlags::from_bytes(&flag_bytes).expect("Unexpected error");
    assert_eq!(expected, result);
}

#[test]
fn flags_round_trip_all_bool_combinations() {
    // Every subset of the eight boolean sub-fields, opcode and rcode held
    // fixed, must survive encode-then-decode unchanged.
    for bits in 0u32..256 {
        let flags = DnsFlags {
            qr_bit: bits & 1 != 0,
            opcode: DnsOpcode::Query,
            aa_bit: bits & 2 != 0,
            tc_bit: bits & 4 != 0,
            rd_bit: bits & 8 != 0,
            ra_bit: bits & 16 != 0,
            ad_bit: bits & 32 != 0,
            cd_bit: bits & 64 != 0,
            rcode: if bits & 128 != 0 { DnsRCode::ServFail } else { DnsRCode::NoError },
        };
        let bytes = flags.to_bytes();
        let decoded = DnsFlags::from_bytes(&bytes).expect("flags must decode");
        assert_eq!(flags, decoded);
    }
}

#[test]
fn flags_round_trip_all_opcodes_and_rcodes() {
    let opcodes = [
        DnsOpcode::Query,
        DnsOpcode::IQuery,
        DnsOpcode::Status,
        DnsOpcode::Zone,
        DnsOpcode::Update,
        DnsOpcode::DSO,
    ];
    let rcodes = [
        DnsRCode::NoError,
        DnsRCode::FormError,
        DnsRCode::ServFail,
        DnsRCode::NXDomain,
        DnsRCode::NotImp,
        DnsRCode::Refused,
        DnsRCode::YXDomain,
        DnsRCode::YXRRSet,
        DnsRCode::NXRRSet,
        DnsRCode::NotAuth,
        DnsRCode::NotZone,
        DnsRCode::DSOTypeNI,
    ];
    for opcode in opcodes {
        for rcode in rcodes {
            let flags = DnsFlags {
                qr_bit: true,
                opcode,
                aa_bit: false,
                tc_bit: true,
                rd_bit: false,
                ra_bit: true,
                ad_bit: false,
                cd_bit: true,
                rcode,
            };
            let bytes = flags.to_bytes();
            let decoded = DnsFlags::from_bytes(&bytes).expect("flags must decode");
            assert_eq!(flags, decoded);
        }
    }
}

#[test]
fn flags_unassigned_opcode_is_rejected() {
    // Opcode 3 is reserved: bits 3-6 of the first byte hold 0b0011.
    let flag_bytes = [0x18u8, 0x00u8];
    assert_eq!(
        Err(DecodeError::UnknownEnumValue),
        DnsFlags::from_bytes(&flag_bytes)
    );
}

#[test]
fn flags_unassigned_rcode_is_rejected() {
    // Response code 12 is reserved: low four bits of the second byte.
    let flag_bytes = [0x00u8, 0x0cu8];
    assert_eq!(
        Err(DecodeError::UnknownEnumValue),
        DnsFlags::from_bytes(&flag_bytes)
    );
}

#[test]
fn flags_short_input_is_truncation() {
    assert_eq!(Err(DecodeError::TruncatedInput), DnsFlags::from_bytes(&[0x01u8]));
    assert_eq!(Err(DecodeError::TruncatedInput), DnsFlags::from_bytes(&[]));
}
