use dns_codec::error::DecodeError;
use dns_codec::flags::DnsFlags;
use dns_codec::message::DnsPacket;
use dns_codec::message::DnsQuestion;
use dns_codec::message::DnsResourceRecord;
use dns_codec::message::RecordClass;
use dns_codec::registry::DnsClass;
use dns_codec::registry::DnsOpcode;
use dns_codec::registry::DnsRCode;
use dns_codec::registry::DnsRRType;

fn labels(parts: &[&str]) -> Vec<Vec<u8>> {
    parts.iter().map(|p| p.as_bytes().to_vec()).collect()
}

fn query_flags() -> DnsFlags {
    DnsFlags {
        qr_bit: false,
        opcode: DnsOpcode::Query,
        aa_bit: false,
        tc_bit: false,
        rd_bit: true,
        ra_bit: false,
        ad_bit: true,
        cd_bit: false,
        rcode: DnsRCode::NoError,
    }
}

/// Header, one question (www.example.com A IN), one uncompressed answer
/// with a 4-byte payload, nothing else.
fn fixture_bytes() -> Vec<u8> {
    let mut b: Vec<u8> = Vec::new();
    b.extend_from_slice(&[0x12, 0x34]); // id
    b.extend_from_slice(&[0x01, 0x20]); // flags: rd + ad
    b.extend_from_slice(&[0x00, 0x01]); // QDCOUNT
    b.extend_from_slice(&[0x00, 0x01]); // ANCOUNT
    b.extend_from_slice(&[0x00, 0x00]); // NSCOUNT
    b.extend_from_slice(&[0x00, 0x00]); // ARCOUNT
    let name = [
        3, b'w', b'w', b'w', 7, b'e', b'x', b'a', b'm', b'p', b'l', b'e', 3, b'c', b'o', b'm', 0,
    ];
    b.extend_from_slice(&name);
    b.extend_from_slice(&[0x00, 0x01]); // qtype A
    b.extend_from_slice(&[0x00, 0x01]); // qclass IN
    b.extend_from_slice(&name);
    b.extend_from_slice(&[0x00, 0x01]); // type A
    b.extend_from_slice(&[0x00, 0x01]); // class IN
    b.extend_from_slice(&[0x00, 0x00, 0x00, 0x3C]); // ttl 60
    b.extend_from_slice(&[0x00, 0x04]); // rd_length
    b.extend_from_slice(&[192, 0, 2, 1]); // payload
    b
}

#[test]
fn fixture_decodes_with_counts_matching_sections() {
    let bytes = fixture_bytes();
    let packet = DnsPacket::from_bytes(&bytes).expect("fixture must decode");
    assert_eq!(0x1234, packet.id);
    assert_eq!(query_flags(), packet.flags);
    assert_eq!(1, packet.questions.len());
    assert_eq!(1, packet.answers.len());
    assert_eq!(0, packet.nameservers.len());
    assert_eq!(0, packet.addl_recs.len());

    let q = &packet.questions[0];
    assert_eq!(labels(&["www", "example", "com"]), q.qname);
    assert_eq!(DnsRRType::A, q.qtype);
    assert_eq!(DnsClass::IN, q.qclass);

    let a = &packet.answers[0];
    assert_eq!(labels(&["www", "example", "com"]), a.name);
    assert_eq!(DnsRRType::A, a.rr_type);
    assert_eq!(RecordClass::Known(DnsClass::IN), a.class);
    assert_eq!(60, a.ttl);
    assert_eq!(4, a.rd_length);
    assert_eq!(vec![192, 0, 2, 1], a.record);
}

#[test]
fn fixture_with_compressed_answer_name_decodes() {
    // The answer's name is a pointer to the question's name at offset 12.
    let mut b: Vec<u8> = Vec::new();
    b.extend_from_slice(&[0xAB, 0xCD]);
    b.extend_from_slice(&[0x01, 0x20]);
    b.extend_from_slice(&[0x00, 0x01]);
    b.extend_from_slice(&[0x00, 0x01]);
    b.extend_from_slice(&[0x00, 0x00]);
    b.extend_from_slice(&[0x00, 0x00]);
    b.extend_from_slice(&[3, b'w', b'w', b'w', 3, b'c', b'o', b'm', 0]);
    b.extend_from_slice(&[0x00, 0x01]);
    b.extend_from_slice(&[0x00, 0x01]);
    b.extend_from_slice(&[0xC0, 0x0C]); // pointer to offset 12
    b.extend_from_slice(&[0x00, 0x01]);
    b.extend_from_slice(&[0x00, 0x01]);
    b.extend_from_slice(&[0x00, 0x00, 0x0E, 0x10]);
    b.extend_from_slice(&[0x00, 0x04]);
    b.extend_from_slice(&[198, 51, 100, 7]);

    let packet = DnsPacket::from_bytes(&b).expect("compressed fixture must decode");
    assert_eq!(1, packet.answers.len());
    assert_eq!(labels(&["www", "com"]), packet.answers[0].name);
    assert_eq!(packet.questions[0].qname, packet.answers[0].name);
    assert_eq!(3600, packet.answers[0].ttl);
}

#[test]
fn packet_round_trips_through_bytes() {
    let packet = DnsPacket {
        id: 0xBEEF,
        flags: DnsFlags {
            qr_bit: true,
            opcode: DnsOpcode::Query,
            aa_bit: true,
            tc_bit: false,
            rd_bit: true,
            ra_bit: true,
            ad_bit: false,
            cd_bit: false,
            rcode: DnsRCode::NoError,
        },
        questions: vec![DnsQuestion {
            qname: labels(&["blog", "example", "com"]),
            qtype: DnsRRType::AAAA,
            qclass: DnsClass::IN,
        }],
        answers: vec![DnsResourceRecord {
            name: labels(&["blog", "example", "com"]),
            rr_type: DnsRRType::AAAA,
            class: RecordClass::Known(DnsClass::IN),
            ttl: 300,
            rd_length: 16,
            record: vec![0x20, 0x01, 0x0D, 0xB8, 0, 0, 0, 0, 0, 0, 0, 0, 0, 0, 0, 0x42],
        }],
        nameservers: vec![DnsResourceRecord {
            name: labels(&["example", "com"]),
            rr_type: DnsRRType::NS,
            class: RecordClass::Known(DnsClass::IN),
            ttl: 86400,
            rd_length: 6,
            record: vec![2, b'n', b's', 1, b'x', 0],
        }],
        addl_recs: vec![DnsResourceRecord {
            name: Vec::new(),
            rr_type: DnsRRType::OPT,
            class: RecordClass::OptPayloadSize(4096),
            ttl: 0,
            rd_length: 0,
            record: Vec::new(),
        }],
    };
    let bytes = packet.to_bytes().expect("valid packet must encode");
    let decoded = DnsPacket::from_bytes(&bytes).expect("encoded packet must decode");
    assert_eq!(packet, decoded);
}

#[test]
fn opt_record_keeps_payload_size_raw() {
    // Type OPT (41), class field 4096: the class field must come back as
    // a payload size, not be forced through the class registry.
    let rr_bytes = [
        0u8, // root name
        0x00, 0x29, // type OPT
        0x10, 0x00, // class field: payload size 4096
        0x00, 0x00, 0x00, 0x00, // ttl
        0x00, 0x00, // rd_length
    ];
    let (rr, end) = DnsResourceRecord::from_bytes(&rr_bytes, 0).expect("OPT record must decode");
    assert_eq!(RecordClass::OptPayloadSize(4096), rr.class);
    assert_eq!(DnsRRType::OPT, rr.rr_type);
    assert_eq!(rr_bytes.len(), end);
}

#[test]
fn unassigned_record_type_is_rejected() {
    // Type 54 is unassigned; the record must fail, not default.
    let rr_bytes = [
        0u8, // root name
        0x00, 0x36, // type 54
        0x00, 0x01, // class IN
        0x00, 0x00, 0x00, 0x00, // ttl
        0x00, 0x00, // rd_length
    ];
    assert_eq!(
        Err(DecodeError::UnknownEnumValue),
        DnsResourceRecord::from_bytes(&rr_bytes, 0)
    );

    let mut packet = fixture_bytes();
    // Rewrite the answer's type field (17 bytes of name + 4 after the
    // question start at 12, then 17 bytes of name) to the unassigned 54.
    let answer_type_at = 12 + 17 + 4 + 17;
    packet[answer_type_at] = 0x00;
    packet[answer_type_at + 1] = 0x36;
    assert_eq!(Err(DecodeError::UnknownEnumValue), DnsPacket::from_bytes(&packet));
}

#[test]
fn unassigned_class_is_rejected() {
    let rr_bytes = [
        0u8, // root name
        0x00, 0x01, // type A
        0x00, 0x05, // class 5: unassigned
        0x00, 0x00, 0x00, 0x00, // ttl
        0x00, 0x00, // rd_length
    ];
    assert_eq!(
        Err(DecodeError::UnknownEnumValue),
        DnsResourceRecord::from_bytes(&rr_bytes, 0)
    );
}

#[test]
fn short_buffers_are_truncated_input() {
    for len in 0..12 {
        let buf = vec![0u8; len];
        assert_eq!(Err(DecodeError::TruncatedInput), DnsPacket::from_bytes(&buf));
    }
}

#[test]
fn header_only_packet_decodes_empty() {
    let buf = [0x00u8, 0x07, 0x01, 0x20, 0, 0, 0, 0, 0, 0, 0, 0];
    let packet = DnsPacket::from_bytes(&buf).expect("header-only packet must decode");
    assert_eq!(7, packet.id);
    assert!(packet.questions.is_empty());
    assert!(packet.answers.is_empty());
    assert!(packet.nameservers.is_empty());
    assert!(packet.addl_recs.is_empty());
}

#[test]
fn missing_question_bytes_are_truncated_input() {
    // QDCOUNT of 1 but nothing after the header.
    let buf = [0x00u8, 0x01, 0x01, 0x20, 0x00, 0x01, 0, 0, 0, 0, 0, 0];
    assert_eq!(Err(DecodeError::TruncatedInput), DnsPacket::from_bytes(&buf));
}

#[test]
fn truncated_record_payload_is_reported() {
    // rd_length claims 4 bytes; only 2 follow.
    let rr_bytes = [
        0u8, // root name
        0x00, 0x01, // type A
        0x00, 0x01, // class IN
        0x00, 0x00, 0x00, 0x00, // ttl
        0x00, 0x04, // rd_length 4
        0xAA, 0xBB,
    ];
    assert_eq!(
        Err(DecodeError::TruncatedInput),
        DnsResourceRecord::from_bytes(&rr_bytes, 0)
    );
}

#[test]
fn record_length_mismatch_is_refused_on_encode() {
    let rr = DnsResourceRecord {
        name: Vec::new(),
        rr_type: DnsRRType::A,
        class: RecordClass::Known(DnsClass::IN),
        ttl: 0,
        rd_length: 5,
        record: vec![1, 2, 3, 4],
    };
    assert_eq!(Err(DecodeError::LengthMismatch), rr.to_bytes());
}

#[test]
fn bad_name_is_refused_on_question_encode() {
    let q = DnsQuestion {
        qname: vec![vec![b'x'; 64]],
        qtype: DnsRRType::A,
        qclass: DnsClass::IN,
    };
    assert_eq!(Err(DecodeError::LengthMismatch), q.to_bytes());
}

#[test]
fn question_encoding_is_bytewise_exact() {
    let q = DnsQuestion {
        qname: labels(&["www", "com"]),
        qtype: DnsRRType::MX,
        qclass: DnsClass::CH,
    };
    let bytes = q.to_bytes().expect("question must encode");
    assert_eq!(
        vec![3, b'w', b'w', b'w', 3, b'c', b'o', b'm', 0, 0x00, 0x0F, 0x00, 0x03],
        bytes
    );
}
