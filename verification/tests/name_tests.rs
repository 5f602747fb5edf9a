use dns_codec::error::DecodeError;
use dns_codec::name::deserialize_name;
use dns_codec::name::serialize_name;

fn labels(parts: &[&str]) -> Vec<Vec<u8>> {
    parts.iter().map(|p| p.as_bytes().to_vec()).collect()
}

#[test]
fn name_serialize_then_deserialize_round_trips() {
    let name = labels(&["blog", "example", "com"]);
    let bytes = serialize_name(&name).expect("name must encode");
    assert_eq!(
        bytes,
        vec![
            4, b'b', b'l', b'o', b'g', 7, b'e', b'x', b'a', b'm', b'p', b'l', b'e', 3, b'c', b'o',
            b'm', 0
        ]
    );
    let (decoded, end) = deserialize_name(&bytes, 0).expect("name must decode");
    assert_eq!(name, decoded);
    assert_eq!(bytes.len(), end);
}

#[test]
fn root_name_is_a_single_terminator() {
    let name: Vec<Vec<u8>> = Vec::new();
    let bytes = serialize_name(&name).expect("root must encode");
    assert_eq!(vec![0u8], bytes);
    let (decoded, end) = deserialize_name(&bytes, 0).expect("root must decode");
    assert!(decoded.is_empty());
    assert_eq!(1, end);
}

#[test]
fn pointer_yields_same_labels_and_advances_two_bytes() {
    // The labels of example.com sit at offset 0; a pointer at offset 13
    // targets them. Decoding from the pointer must give the same labels
    // and move the cursor exactly two bytes.
    let mut buf = vec![
        7, b'e', b'x', b'a', b'm', b'p', b'l', b'e', 3, b'c', b'o', b'm', 0,
    ];
    let pointer_at = buf.len();
    buf.push(0xC0);
    buf.push(0x00);

    let (at_a, end_a) = deserialize_name(&buf, 0).expect("direct decode works");
    let (at_b, end_b) = deserialize_name(&buf, pointer_at).expect("pointer decode works");
    assert_eq!(at_a, at_b);
    assert_eq!(13, end_a);
    assert_eq!(pointer_at + 2, end_b);
}

#[test]
fn self_pointer_is_rejected() {
    // A pointer at offset 0 targeting offset 0: decoding must fail fast,
    // never spin.
    let buf = [0xC0u8, 0x00u8];
    assert_eq!(
        Err(DecodeError::PointerLoopOrOverflow),
        deserialize_name(&buf, 0)
    );
}

#[test]
fn pointer_cycle_is_cut_off() {
    // A pointer that leads to a label which runs back into the same
    // pointer; the hop budget must end the chase with an error.
    let buf = [1u8, b'a', 0xC0, 0x00];
    assert_eq!(
        Err(DecodeError::PointerLoopOrOverflow),
        deserialize_name(&buf, 2)
    );
}

#[test]
fn forward_pointer_is_rejected() {
    // A pointer may only reach backward; offset 4 is past the pointer.
    let buf = [0xC0u8, 0x04u8, 0, 0, 0];
    assert_eq!(
        Err(DecodeError::PointerLoopOrOverflow),
        deserialize_name(&buf, 0)
    );
}

#[test]
fn reserved_control_octet_is_invalid() {
    // 0x40-0xBF is neither a label length nor a pointer.
    let buf = [0x40u8, 0x00u8];
    assert_eq!(
        Err(DecodeError::InvalidNameEncoding),
        deserialize_name(&buf, 0)
    );
    let buf = [0xBFu8, 0x00u8];
    assert_eq!(
        Err(DecodeError::InvalidNameEncoding),
        deserialize_name(&buf, 0)
    );
}

#[test]
fn overlong_name_is_invalid_on_decode() {
    // Five 63-byte labels need 320 bytes of encoding, past the 255 limit.
    let mut buf: Vec<u8> = Vec::new();
    for _ in 0..5 {
        buf.push(63);
        buf.extend(std::iter::repeat(b'x').take(63));
    }
    buf.push(0);
    assert_eq!(
        Err(DecodeError::InvalidNameEncoding),
        deserialize_name(&buf, 0)
    );
}

#[test]
fn overlong_name_is_rejected_on_encode() {
    let name: Vec<Vec<u8>> = (0..5).map(|_| vec![b'x'; 63]).collect();
    assert_eq!(Err(DecodeError::LengthMismatch), serialize_name(&name));
}

#[test]
fn longest_legal_name_round_trips() {
    // Three 63-byte labels and one 61-byte label encode to exactly 255
    // bytes, the largest a name may be.
    let mut name: Vec<Vec<u8>> = (0..3).map(|_| vec![b'x'; 63]).collect();
    name.push(vec![b'y'; 61]);
    let bytes = serialize_name(&name).expect("255-byte name must encode");
    assert_eq!(255, bytes.len());
    let (decoded, end) = deserialize_name(&bytes, 0).expect("255-byte name must decode");
    assert_eq!(name, decoded);
    assert_eq!(255, end);
}

#[test]
fn oversized_label_is_rejected_on_encode() {
    let name = vec![vec![b'x'; 64]];
    assert_eq!(Err(DecodeError::LengthMismatch), serialize_name(&name));
}

#[test]
fn empty_label_is_rejected_on_encode() {
    let name = vec![b"ok".to_vec(), Vec::new()];
    assert_eq!(Err(DecodeError::LengthMismatch), serialize_name(&name));
}

#[test]
fn truncated_label_is_reported() {
    let buf = [3u8, b'a', b'b'];
    assert_eq!(Err(DecodeError::TruncatedInput), deserialize_name(&buf, 0));
}

#[test]
fn missing_terminator_is_reported() {
    let buf = [1u8, b'a'];
    assert_eq!(Err(DecodeError::TruncatedInput), deserialize_name(&buf, 0));
}
