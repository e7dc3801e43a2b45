use plato_wire::msg_type;
use plato_wire::{ProtocolError, WireBuffer, WireMessage};

// ── WireMessage: roundtrips ───────────────────────────────────────────

#[test]
fn test_vibe_update_roundtrip() {
    let msg = WireMessage::VibeUpdate {
        entity_id: 101,
        vibe_bits: std::f64::consts::PI.to_bits(),
        tick: 42,
    };
    let encoded = msg.encode();
    let mut buf = WireBuffer::from_bytes(encoded);
    let decoded = WireMessage::decode(&mut buf).unwrap();
    assert_eq!(msg, decoded);
    assert_eq!(buf.remaining(), 0);
}

#[test]
fn test_conservation_check_roundtrip() {
    let msg = WireMessage::ConservationCheck {
        baseline_bits: 1.0f64.to_bits(),
        actual_bits: 0.999f64.to_bits(),
        error_bits: 0.001f64.to_bits(),
    };
    let encoded = msg.encode();
    let mut buf = WireBuffer::from_bytes(encoded);
    let decoded = WireMessage::decode(&mut buf).unwrap();
    assert_eq!(msg, decoded);
}

#[test]
fn test_agent_action_roundtrip() {
    let params: Vec<f64> = vec![1.0, 2.5, -std::f64::consts::PI, 0.0];
    let msg = WireMessage::AgentAction {
        agent_id: 7,
        action: 3,
        param_bits: params.iter().map(|p| p.to_bits()).collect(),
    };
    let encoded = msg.encode();
    let mut buf = WireBuffer::from_bytes(encoded);
    let decoded = WireMessage::decode(&mut buf).unwrap();
    assert_eq!(msg, decoded);
}

#[test]
fn test_agent_action_many_params() {
    let params: Vec<u64> = (0..100).map(|i| (f64::from(i) * 1.5).to_bits()).collect();
    let msg = WireMessage::AgentAction {
        agent_id: 1,
        action: 2,
        param_bits: params,
    };
    let encoded = msg.encode();
    let mut buf = WireBuffer::from_bytes(encoded);
    let decoded = WireMessage::decode(&mut buf).unwrap();
    assert_eq!(msg, decoded);
}

#[test]
fn test_agent_action_no_params() {
    let msg = WireMessage::AgentAction {
        agent_id: 0,
        action: 0,
        param_bits: vec![],
    };
    let encoded = msg.encode();
    let mut buf = WireBuffer::from_bytes(encoded);
    let decoded = WireMessage::decode(&mut buf).unwrap();
    assert_eq!(msg, decoded);
}

#[test]
fn test_room_event_roundtrip() {
    let msg = WireMessage::RoomEvent {
        room_id: 42,
        event_type: 7,
        data: vec![0xCA, 0xFE, 0xBA, 0xBE],
    };
    let encoded = msg.encode();
    let mut buf = WireBuffer::from_bytes(encoded);
    let decoded = WireMessage::decode(&mut buf).unwrap();
    assert_eq!(msg, decoded);
}

#[test]
fn test_room_event_empty_data() {
    let msg = WireMessage::RoomEvent {
        room_id: 0,
        event_type: 0,
        data: vec![],
    };
    let encoded = msg.encode();
    let mut buf = WireBuffer::from_bytes(encoded);
    let decoded = WireMessage::decode(&mut buf).unwrap();
    assert_eq!(msg, decoded);
}

#[test]
fn test_world_snapshot_roundtrip() {
    let msg = WireMessage::WorldSnapshot {
        tick: 999,
        entity_count: 42,
        total_vibe_bits: 100.0f64.to_bits(),
    };
    let encoded = msg.encode();
    let mut buf = WireBuffer::from_bytes(encoded);
    let decoded = WireMessage::decode(&mut buf).unwrap();
    assert_eq!(msg, decoded);
}

#[test]
fn test_ping_roundtrip() {
    let msg = WireMessage::Ping { timestamp: 1_234_567 };
    let encoded = msg.encode();
    let mut buf = WireBuffer::from_bytes(encoded);
    let decoded = WireMessage::decode(&mut buf).unwrap();
    assert_eq!(msg, decoded);
}

#[test]
fn test_pong_roundtrip() {
    let msg = WireMessage::Pong {
        timestamp: u64::MAX,
    };
    let encoded = msg.encode();
    let mut buf = WireBuffer::from_bytes(encoded);
    let decoded = WireMessage::decode(&mut buf).unwrap();
    assert_eq!(msg, decoded);
}

// ── WireMessage: error cases ──────────────────────────────────────────

#[test]
fn test_decode_unknown_msg_type() {
    let mut buf = WireBuffer::new();
    buf.write_u8(0xFF); // unknown type
    assert_eq!(
        WireMessage::decode(&mut buf),
        Err(ProtocolError::InvalidLength(255))
    );
}

#[test]
fn test_decode_empty_buffer() {
    let mut buf = WireBuffer::new();
    assert_eq!(
        WireMessage::decode(&mut buf),
        Err(ProtocolError::UnexpectedEof)
    );
}

#[test]
fn test_decode_truncated_message() {
    // Ping has message type (1) + timestamp (8) = 9 bytes
    let mut buf = WireBuffer::new();
    buf.write_u8(msg_type::PING);
    buf.write_u32_le(1234); // only 4 of 8 timestamp bytes
    buf.reset_read();
    assert_eq!(
        WireMessage::decode(&mut buf),
        Err(ProtocolError::UnexpectedEof)
    );
}

#[test]
fn test_decode_truncated_room_event_data() {
    let mut buf = WireBuffer::new();
    buf.write_u8(msg_type::ROOM_EVENT);
    buf.write_u64_le(1);
    buf.write_u8(5);
    buf.write_u32_le(100); // claim 100 bytes but provide none
    buf.reset_read();
    assert_eq!(
        WireMessage::decode(&mut buf),
        Err(ProtocolError::UnexpectedEof)
    );
}

#[test]
fn test_decode_truncated_agent_action_params() {
    let mut buf = WireBuffer::new();
    buf.write_u8(msg_type::AGENT_ACTION);
    buf.write_u64_le(1);
    buf.write_u8(0);
    buf.write_u32_le(5); // claim 5 params but provide 0 values
    buf.reset_read();
    assert_eq!(
        WireMessage::decode(&mut buf),
        Err(ProtocolError::UnexpectedEof)
    );
}

// ── Determinism ───────────────────────────────────────────────────────

#[test]
fn test_deterministic_encoding() {
    let a = WireMessage::VibeUpdate {
        entity_id: 1,
        vibe_bits: 2.0f64.to_bits(),
        tick: 3,
    };
    let b = WireMessage::VibeUpdate {
        entity_id: 1,
        vibe_bits: 2.0f64.to_bits(),
        tick: 3,
    };
    assert_eq!(a.encode(), b.encode());
}
