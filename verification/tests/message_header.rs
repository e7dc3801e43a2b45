use plato_wire::MessageHeader;

#[test]
fn test_message_header_roundtrip() {
    let h = MessageHeader {
        msg_type: 0x07,
        payload_len: 1234,
        tick: 999_999_999,
    };
    let encoded = h.encode();
    assert_eq!(encoded.len(), 13);
    let decoded = MessageHeader::decode(&encoded);
    assert_eq!(h, decoded);
}

#[test]
fn test_message_header_edge_cases() {
    let h = MessageHeader {
        msg_type: 0,
        payload_len: 0,
        tick: 0,
    };
    assert_eq!(MessageHeader::decode(&h.encode()), h);

    let h = MessageHeader {
        msg_type: 255,
        payload_len: u32::MAX,
        tick: u64::MAX,
    };
    assert_eq!(MessageHeader::decode(&h.encode()), h);
}

#[test]
fn test_deterministic_header() {
    let h = MessageHeader {
        msg_type: 0x01,
        payload_len: 20,
        tick: 100,
    };
    assert_eq!(h.encode(), h.encode());
}
