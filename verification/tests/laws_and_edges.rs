use plato_wire::msg_type;
use plato_wire::{
    MessageHeader, ProtocolError, WireBuffer, WireMessage, MAX_PAYLOAD_BYTES, MAX_STRING_BYTES,
};

// ── exact encodings ───────────────────────────────────────────────────

#[test]
fn little_endian_layout_of_each_width() {
    let mut buf = WireBuffer::new();
    buf.write_u16_le(0x0102);
    buf.write_u32_le(0xDEAD_BEEF);
    buf.write_u64_le(0x0807_0605_0403_0201);
    buf.write_i64_le(-2);
    buf.write_bool(true);
    buf.write_bool(false);
    assert_eq!(
        buf.into_bytes(),
        vec![
            0x02, 0x01, // u16
            0xEF, 0xBE, 0xAD, 0xDE, // u32
            0x01, 0x02, 0x03, 0x04, 0x05, 0x06, 0x07, 0x08, // u64
            0xFE, 0xFF, 0xFF, 0xFF, 0xFF, 0xFF, 0xFF, 0xFF, // i64 -2
            1, 0, // bools
        ]
    );
}

#[test]
fn byte_field_is_length_then_bytes() {
    let mut buf = WireBuffer::new();
    buf.write_bytes(&[9, 8, 7]).unwrap();
    buf.write_string("é").unwrap();
    assert_eq!(buf.into_bytes(), vec![3, 0, 0, 0, 9, 8, 7, 2, 0, 0, 0, 0xC3, 0xA9]);
}

#[test]
fn header_layout() {
    let h = MessageHeader {
        msg_type: 0xAA,
        payload_len: 0x0403_0201,
        tick: 0x1817_1615_1413_1211,
    };
    assert_eq!(
        h.encode(),
        [0xAA, 0x01, 0x02, 0x03, 0x04, 0x11, 0x12, 0x13, 0x14, 0x15, 0x16, 0x17, 0x18]
    );
    assert_eq!(MessageHeader::SIZE, 13);
}

#[test]
fn ping_layout() {
    let m = WireMessage::Ping { timestamp: 0x0102 };
    assert_eq!(m.encode(), vec![msg_type::PING, 0x02, 0x01, 0, 0, 0, 0, 0, 0]);
    assert_eq!(m.msg_type_byte(), msg_type::PING);
}

#[test]
fn agent_action_layout() {
    let m = WireMessage::AgentAction { agent_id: 1, action: 2, param_bits: vec![3] };
    assert_eq!(
        m.encode(),
        vec![msg_type::AGENT_ACTION, 1, 0, 0, 0, 0, 0, 0, 0, 2, 1, 0, 0, 0, 3, 0, 0, 0, 0, 0, 0, 0]
    );
}

// ── read after write, with data before and after ──────────────────────

#[test]
fn each_value_reads_back_between_other_data() {
    let mut buf = WireBuffer::new();
    buf.write_u8(0x5A);
    buf.write_i64_le(i64::MIN);
    buf.write_i64_le(i64::MAX);
    buf.write_i64_le(-1);
    buf.write_u16_le(u16::MAX);
    buf.write_u32_le(u32::MAX);
    buf.write_bytes(&[1, 2, 3]).unwrap();
    buf.write_string("abc").unwrap();
    buf.write_bool(true);
    buf.write_u8(0xA5);
    buf.reset_read();
    assert_eq!(buf.read_u8(), Ok(0x5A));
    assert_eq!(buf.read_i64_le(), Ok(i64::MIN));
    assert_eq!(buf.read_i64_le(), Ok(i64::MAX));
    assert_eq!(buf.read_i64_le(), Ok(-1));
    assert_eq!(buf.read_u16_le(), Ok(u16::MAX));
    assert_eq!(buf.read_u32_le(), Ok(u32::MAX));
    assert_eq!(buf.read_bytes(), Ok(vec![1, 2, 3]));
    assert_eq!(buf.read_string(), Ok(String::from("abc")));
    assert_eq!(buf.read_bool(), Ok(true));
    assert_eq!(buf.read_u8(), Ok(0xA5));
    assert_eq!(buf.remaining(), 0);
}

#[test]
fn any_nonzero_byte_reads_as_true() {
    let mut buf = WireBuffer::from_bytes(vec![2, 0, 255]);
    assert_eq!(buf.read_bool(), Ok(true));
    assert_eq!(buf.read_bool(), Ok(false));
    assert_eq!(buf.read_bool(), Ok(true));
    assert_eq!(buf.read_bool(), Err(ProtocolError::UnexpectedEof));
}

// ── where the cursor stands after an error ────────────────────────────

#[test]
fn short_read_leaves_cursor_in_place() {
    let mut buf = WireBuffer::from_bytes(vec![1, 2, 3]);
    assert_eq!(buf.read_u32_le(), Err(ProtocolError::UnexpectedEof));
    assert_eq!(buf.read_u64_le(), Err(ProtocolError::UnexpectedEof));
    assert_eq!(buf.read_i64_le(), Err(ProtocolError::UnexpectedEof));
    assert_eq!(buf.remaining(), 3);
    assert_eq!(buf.read_u16_le(), Ok(0x0201));
    assert_eq!(buf.remaining(), 1);
}

#[test]
fn refused_length_consumes_only_the_prefix() {
    let mut buf = WireBuffer::new();
    buf.write_u32_le(MAX_STRING_BYTES + 1);
    buf.write_u8(7);
    assert_eq!(
        buf.read_string(),
        Err(ProtocolError::InvalidLength(MAX_STRING_BYTES + 1))
    );
    assert_eq!(buf.remaining(), 1);
    assert_eq!(buf.read_u8(), Ok(7));
}

#[test]
fn missing_field_bytes_consume_only_the_prefix() {
    let mut buf = WireBuffer::new();
    buf.write_u32_le(5);
    buf.write_u8(1);
    assert_eq!(buf.read_bytes(), Err(ProtocolError::UnexpectedEof));
    assert_eq!(buf.remaining(), 1);
}

#[test]
fn invalid_utf8_is_consumed() {
    let mut buf = WireBuffer::new();
    buf.write_bytes(&[0xC0, 0x80]).unwrap(); // overlong encoding
    buf.write_bytes(&[0xED, 0xA0, 0x80]).unwrap(); // surrogate
    buf.write_bytes(&[0xE2, 0x82, 0xAC]).unwrap(); // euro sign
    buf.reset_read();
    assert_eq!(buf.read_string(), Err(ProtocolError::InvalidUtf8));
    assert_eq!(buf.read_string(), Err(ProtocolError::InvalidUtf8));
    assert_eq!(buf.read_string(), Ok(String::from("\u{20AC}")));
    assert_eq!(buf.remaining(), 0);
}

#[test]
fn refused_write_leaves_buffer_unchanged() {
    let mut buf = WireBuffer::new();
    buf.write_u8(1);
    let huge = vec![0u8; MAX_PAYLOAD_BYTES as usize + 1];
    assert_eq!(
        buf.write_bytes(&huge),
        Err(ProtocolError::InvalidLength(MAX_PAYLOAD_BYTES + 1))
    );
    assert_eq!(buf.len(), 1);
    assert_eq!(buf.remaining(), 1);
}

#[test]
fn writes_do_not_move_the_cursor() {
    let mut buf = WireBuffer::new();
    buf.write_u8(1);
    buf.write_u8(2);
    assert_eq!(buf.read_u8(), Ok(1));
    buf.write_u8(3);
    assert_eq!(buf.remaining(), 2);
    assert_eq!(buf.read_u8(), Ok(2));
    assert_eq!(buf.read_u8(), Ok(3));
}

#[test]
fn default_is_empty() {
    let buf = WireBuffer::default();
    assert!(buf.is_empty());
    assert_eq!(buf.remaining(), 0);
}

// ── header: every 13 bytes decode and re-encode to themselves ─────────

#[test]
fn header_bytes_roundtrip() {
    let raw: [u8; 13] = [0x10, 0xFF, 0x00, 0x80, 0x7F, 1, 2, 3, 4, 5, 6, 7, 0xFE];
    let h = MessageHeader::decode(&raw);
    assert_eq!(h.msg_type, 0x10);
    assert_eq!(h.payload_len, 0x7F80_00FF);
    assert_eq!(h.tick, 0xFE07_0605_0403_0201);
    assert_eq!(h.encode(), raw);
}

// ── messages ──────────────────────────────────────────────────────────

#[test]
fn messages_back_to_back_with_trailing_data() {
    let a = WireMessage::WorldSnapshot { tick: 5, entity_count: 6, total_vibe_bits: 7 };
    let b = WireMessage::RoomEvent { room_id: 8, event_type: 9, data: vec![1, 2] };
    let mut bytes = a.encode();
    bytes.extend(b.encode());
    bytes.extend([0xEE, 0xEE]);
    let mut buf = WireBuffer::from_bytes(bytes);
    assert_eq!(WireMessage::decode(&mut buf), Ok(a));
    assert_eq!(WireMessage::decode(&mut buf), Ok(b));
    assert_eq!(buf.remaining(), 2);
}

#[test]
fn truncated_message_stops_after_last_whole_field() {
    let mut buf = WireBuffer::new();
    buf.write_u8(msg_type::VIBE_UPDATE);
    buf.write_u64_le(1);
    buf.write_u64_le(2);
    buf.write_u32_le(3); // half of the last field
    buf.reset_read();
    assert_eq!(WireMessage::decode(&mut buf), Err(ProtocolError::UnexpectedEof));
    assert_eq!(buf.remaining(), 4);
}

#[test]
fn truncated_params_stop_after_last_whole_value() {
    let mut buf = WireBuffer::new();
    buf.write_u8(msg_type::AGENT_ACTION);
    buf.write_u64_le(1);
    buf.write_u8(0);
    buf.write_u32_le(3);
    buf.write_u64_le(10);
    buf.write_u16_le(11);
    buf.reset_read();
    assert_eq!(WireMessage::decode(&mut buf), Err(ProtocolError::UnexpectedEof));
    assert_eq!(buf.remaining(), 2);
}

#[test]
fn unknown_type_zero_is_refused() {
    let mut buf = WireBuffer::from_bytes(vec![0, 1, 2]);
    assert_eq!(WireMessage::decode(&mut buf), Err(ProtocolError::InvalidLength(0)));
    assert_eq!(buf.remaining(), 2);
}

#[test]
fn room_event_data_too_long_is_refused() {
    let mut buf = WireBuffer::new();
    buf.write_u8(msg_type::ROOM_EVENT);
    buf.write_u64_le(1);
    buf.write_u8(2);
    buf.write_u32_le(MAX_PAYLOAD_BYTES + 1);
    buf.reset_read();
    assert_eq!(
        WireMessage::decode(&mut buf),
        Err(ProtocolError::InvalidLength(MAX_PAYLOAD_BYTES + 1))
    );
}

#[test]
fn every_opcode_roundtrips() {
    let msgs = vec![
        WireMessage::VibeUpdate { entity_id: u64::MAX, vibe_bits: 0, tick: 1 },
        WireMessage::ConservationCheck { baseline_bits: 1, actual_bits: 2, error_bits: 3 },
        WireMessage::AgentAction { agent_id: 4, action: 255, param_bits: vec![u64::MAX, 0] },
        WireMessage::RoomEvent { room_id: 5, event_type: 6, data: vec![0; 300] },
        WireMessage::WorldSnapshot { tick: 7, entity_count: u32::MAX, total_vibe_bits: 8 },
        WireMessage::Ping { timestamp: 0 },
        WireMessage::Pong { timestamp: 9 },
    ];
    let opcodes = [
        msg_type::VIBE_UPDATE,
        msg_type::CONSERVATION_CHECK,
        msg_type::AGENT_ACTION,
        msg_type::ROOM_EVENT,
        msg_type::WORLD_SNAPSHOT,
        msg_type::PING,
        msg_type::PONG,
    ];
    for (m, op) in msgs.into_iter().zip(opcodes) {
        assert_eq!(m.msg_type_byte(), op);
        let bytes = m.encode();
        assert_eq!(bytes[0], op);
        let mut buf = WireBuffer::from_bytes(bytes);
        assert_eq!(WireMessage::decode(&mut buf), Ok(m));
        assert_eq!(buf.remaining(), 0);
    }
}

// ── strings longer than a read accepts are refused when written ───────

#[test]
fn string_longer_than_read_limit_is_refused() {
    let mut buf = WireBuffer::new();
    buf.write_u8(1);
    let s = "x".repeat(MAX_STRING_BYTES as usize + 1);
    assert_eq!(
        buf.write_string(&s),
        Err(ProtocolError::InvalidLength(MAX_STRING_BYTES + 1))
    );
    assert_eq!(buf.len(), 1);
    let s = "x".repeat(MAX_STRING_BYTES as usize);
    buf.write_string(&s).unwrap();
    assert_eq!(buf.read_u8(), Ok(1));
    assert_eq!(buf.read_string(), Ok(s));
}

// ── error texts and clones ────────────────────────────────────────────

#[test]
fn error_messages() {
    assert_eq!(ProtocolError::UnexpectedEof.message(), "unexpected end of buffer");
    assert_eq!(ProtocolError::InvalidUtf8.message(), "invalid UTF-8 sequence");
    assert_eq!(ProtocolError::InvalidLength(0).message(), "invalid length: 0");
    assert_eq!(ProtocolError::InvalidLength(255).message(), "invalid length: 255");
    assert_eq!(
        ProtocolError::InvalidLength(u32::MAX).message(),
        "invalid length: 4294967295"
    );
}

#[test]
fn clone_keeps_bytes_and_cursor() {
    let mut buf = WireBuffer::from_bytes(vec![1, 2, 3]);
    assert_eq!(buf.read_u8(), Ok(1));
    let mut copy = buf.clone();
    assert_eq!(copy, buf);
    assert_eq!(copy.read_u8(), Ok(2));
    assert_eq!(buf.remaining(), 2);
}
