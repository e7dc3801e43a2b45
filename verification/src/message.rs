//! The protocol messages: a type byte followed by the fields of the message.
//!
//! Floating-point fields travel as the 8 little-endian bytes of their IEEE-754
//! bit pattern; here they are held as that bit pattern (`u64`), so that the
//! encoding and decoding are exact functions of integers.

use vstd::prelude::*;

use crate::buffer::{
    cursor_on, law_bytes_write_then_read, law_u32_write_then_read, law_u64_write_then_read,
    law_u8_write_then_read, lemma_cursor_next, ok_view, read_bytes_spec, read_u32_spec,
    read_u64_spec, read_u8_spec, BufferView, WireBuffer,
};
use crate::error::{ProtocolError, MAX_PAYLOAD_BYTES};
use crate::le::{lemma_le_bytes_len, le_bytes};
use crate::msg_type::{
    AGENT_ACTION, CONSERVATION_CHECK, PING, PONG, ROOM_EVENT, VIBE_UPDATE, WORLD_SNAPSHOT,
};

verus! {

/// All protocol message types. A floating-point field is held as its IEEE-754
/// bit pattern (the `_bits` fields).
#[derive(Debug, Clone, PartialEq)]
pub enum WireMessage {
    VibeUpdate { entity_id: u64, vibe_bits: u64, tick: u64 },
    ConservationCheck { baseline_bits: u64, actual_bits: u64, error_bits: u64 },
    AgentAction { agent_id: u64, action: u8, param_bits: Vec<u64> },
    RoomEvent { room_id: u64, event_type: u8, data: Vec<u8> },
    WorldSnapshot { tick: u64, entity_count: u32, total_vibe_bits: u64 },
    Ping { timestamp: u64 },
    Pong { timestamp: u64 },
}

/// A [`WireMessage`] with its vectors seen as sequences.
pub enum MessageView {
    VibeUpdate { entity_id: u64, vibe_bits: u64, tick: u64 },
    ConservationCheck { baseline_bits: u64, actual_bits: u64, error_bits: u64 },
    AgentAction { agent_id: u64, action: u8, param_bits: Seq<u64> },
    RoomEvent { room_id: u64, event_type: u8, data: Seq<u8> },
    WorldSnapshot { tick: u64, entity_count: u32, total_vibe_bits: u64 },
    Ping { timestamp: u64 },
    Pong { timestamp: u64 },
}

impl View for WireMessage {
    type V = MessageView;

    open spec fn view(&self) -> MessageView {
        match self {
            WireMessage::VibeUpdate { entity_id, vibe_bits, tick } => MessageView::VibeUpdate {
                entity_id: *entity_id,
                vibe_bits: *vibe_bits,
                tick: *tick,
            },
            WireMessage::ConservationCheck {
                baseline_bits,
                actual_bits,
                error_bits,
            } => MessageView::ConservationCheck {
                baseline_bits: *baseline_bits,
                actual_bits: *actual_bits,
                error_bits: *error_bits,
            },
            WireMessage::AgentAction { agent_id, action, param_bits } => MessageView::AgentAction {
                agent_id: *agent_id,
                action: *action,
                param_bits: param_bits@,
            },
            WireMessage::RoomEvent { room_id, event_type, data } => MessageView::RoomEvent {
                room_id: *room_id,
                event_type: *event_type,
                data: data@,
            },
            WireMessage::WorldSnapshot {
                tick,
                entity_count,
                total_vibe_bits,
            } => MessageView::WorldSnapshot {
                tick: *tick,
                entity_count: *entity_count,
                total_vibe_bits: *total_vibe_bits,
            },
            WireMessage::Ping { timestamp } => MessageView::Ping { timestamp: *timestamp },
            WireMessage::Pong { timestamp } => MessageView::Pong { timestamp: *timestamp },
        }
    }
}

impl MessageView {
    /// The message-type opcode of this variant.
    pub open spec fn tag(self) -> u8 {
        match self {
            MessageView::VibeUpdate { .. } => VIBE_UPDATE,
            MessageView::ConservationCheck { .. } => CONSERVATION_CHECK,
            MessageView::AgentAction { .. } => AGENT_ACTION,
            MessageView::RoomEvent { .. } => ROOM_EVENT,
            MessageView::WorldSnapshot { .. } => WORLD_SNAPSHOT,
            MessageView::Ping { .. } => PING,
            MessageView::Pong { .. } => PONG,
        }
    }

    /// The message can be encoded: its parameter count fits in the `u32`
    /// count field, and its event data within [`MAX_PAYLOAD_BYTES`].
    pub open spec fn encodable(self) -> bool {
        match self {
            MessageView::AgentAction { param_bits, .. } => param_bits.len() <= u32::MAX,
            MessageView::RoomEvent { data, .. } => data.len() <= MAX_PAYLOAD_BYTES,
            _ => true,
        }
    }

    /// The fields of the message as they follow the type byte.
    pub open spec fn body_bytes(self) -> Seq<u8> {
        match self {
            MessageView::VibeUpdate { entity_id, vibe_bits, tick } => u64s_bytes(
                seq![entity_id, vibe_bits, tick],
            ),
            MessageView::ConservationCheck {
                baseline_bits,
                actual_bits,
                error_bits,
            } => u64s_bytes(seq![baseline_bits, actual_bits, error_bits]),
            MessageView::AgentAction { agent_id, action, param_bits } => le_bytes(agent_id as nat, 8)
                + seq![action] + le_bytes(param_bits.len(), 4) + u64s_bytes(param_bits),
            MessageView::RoomEvent { room_id, event_type, data } => le_bytes(room_id as nat, 8)
                + seq![event_type] + le_bytes(data.len(), 4) + data,
            MessageView::WorldSnapshot { tick, entity_count, total_vibe_bits } => le_bytes(
                tick as nat,
                8,
            ) + le_bytes(entity_count as nat, 4) + le_bytes(total_vibe_bits as nat, 8),
            MessageView::Ping { timestamp } => le_bytes(timestamp as nat, 8),
            MessageView::Pong { timestamp } => le_bytes(timestamp as nat, 8),
        }
    }

    /// The encoding of the message: `[msg_type: u8][fields...]`.
    pub open spec fn bytes(self) -> Seq<u8> {
        seq![self.tag()] + self.body_bytes()
    }
}

/// The `u64` values `ws`, each as 8 little-endian bytes, one after another.
pub open spec fn u64s_bytes(ws: Seq<u64>) -> Seq<u8>
    decreases ws.len(),
{
    if ws.len() == 0 {
        Seq::empty()
    } else {
        u64s_bytes(ws.drop_last()) + le_bytes(ws.last() as nat, 8)
    }
}

/// Reading `count` little-endian `u64` values one after another; the first
/// that is missing ends the read with its error, the values before it read.
pub open spec fn read_u64s_spec(v: BufferView, count: nat) -> (
    Result<Seq<u64>, ProtocolError>,
    BufferView,
)
    decreases count,
{
    if count == 0 {
        (Ok(Seq::empty()), v)
    } else {
        match read_u64s_spec(v, (count - 1) as nat) {
            (Ok(ws), w) => match read_u64_spec(w) {
                (Ok(x), w2) => (Ok(ws.push(x)), w2),
                (Err(e), w2) => (Err(e), w2),
            },
            (Err(e), w) => (Err(e), w),
        }
    }
}

/// Decoding the body of a message of type `tag` at the cursor, field by
/// field in order; the first field that cannot be read ends the decoding with
/// its error. An unknown `tag` is refused with `InvalidLength(tag)`.
pub open spec fn decode_body_spec(tag: u8, v: BufferView) -> (
    Result<MessageView, ProtocolError>,
    BufferView,
) {
    if tag == VIBE_UPDATE || tag == CONSERVATION_CHECK {
        match read_u64s_spec(v, 3) {
            (Ok(ws), w) => (
                Ok(
                    if tag == VIBE_UPDATE {
                        MessageView::VibeUpdate { entity_id: ws[0], vibe_bits: ws[1], tick: ws[2] }
                    } else {
                        MessageView::ConservationCheck {
                            baseline_bits: ws[0],
                            actual_bits: ws[1],
                            error_bits: ws[2],
                        }
                    },
                ),
                w,
            ),
            (Err(e), w) => (Err(e), w),
        }
    } else if tag == AGENT_ACTION {
        match read_u64_spec(v) {
            (Ok(agent_id), w1) => match read_u8_spec(w1) {
                (Ok(action), w2) => match read_u32_spec(w2) {
                    (Ok(count), w3) => match read_u64s_spec(w3, count as nat) {
                        (Ok(param_bits), w4) => (
                            Ok(MessageView::AgentAction { agent_id, action, param_bits }),
                            w4,
                        ),
                        (Err(e), w4) => (Err(e), w4),
                    },
                    (Err(e), w3) => (Err(e), w3),
                },
                (Err(e), w2) => (Err(e), w2),
            },
            (Err(e), w1) => (Err(e), w1),
        }
    } else if tag == ROOM_EVENT {
        match read_u64_spec(v) {
            (Ok(room_id), w1) => match read_u8_spec(w1) {
                (Ok(event_type), w2) => match read_bytes_spec(w2) {
                    (Ok(data), w3) => (Ok(MessageView::RoomEvent { room_id, event_type, data }), w3),
                    (Err(e), w3) => (Err(e), w3),
                },
                (Err(e), w2) => (Err(e), w2),
            },
            (Err(e), w1) => (Err(e), w1),
        }
    } else if tag == WORLD_SNAPSHOT {
        match read_u64_spec(v) {
            (Ok(tick), w1) => match read_u32_spec(w1) {
                (Ok(entity_count), w2) => match read_u64_spec(w2) {
                    (Ok(total_vibe_bits), w3) => (
                        Ok(MessageView::WorldSnapshot { tick, entity_count, total_vibe_bits }),
                        w3,
                    ),
                    (Err(e), w3) => (Err(e), w3),
                },
                (Err(e), w2) => (Err(e), w2),
            },
            (Err(e), w1) => (Err(e), w1),
        }
    } else if tag == PING || tag == PONG {
        match read_u64_spec(v) {
            (Ok(timestamp), w) => (
                Ok(
                    if tag == PING {
                        MessageView::Ping { timestamp }
                    } else {
                        MessageView::Pong { timestamp }
                    },
                ),
                w,
            ),
            (Err(e), w) => (Err(e), w),
        }
    } else {
        (Err(ProtocolError::InvalidLength(tag as u32)), v)
    }
}

/// Decoding a message at the cursor: its type byte, then its body.
pub open spec fn decode_spec(v: BufferView) -> (Result<MessageView, ProtocolError>, BufferView) {
    match read_u8_spec(v) {
        (Ok(tag), w) => decode_body_spec(tag, w),
        (Err(e), w) => (Err(e), w),
    }
}

impl WireMessage {
    /// Return the message-type opcode for this variant.
    pub fn msg_type_byte(&self) -> (r: u8)
        ensures
            r == self@.tag(),
    {
        match self {
            WireMessage::VibeUpdate { .. } => VIBE_UPDATE,
            WireMessage::ConservationCheck { .. } => CONSERVATION_CHECK,
            WireMessage::AgentAction { .. } => AGENT_ACTION,
            WireMessage::RoomEvent { .. } => ROOM_EVENT,
            WireMessage::WorldSnapshot { .. } => WORLD_SNAPSHOT,
            WireMessage::Ping { .. } => PING,
            WireMessage::Pong { .. } => PONG,
        }
    }

    /// Encode the message into a `Vec<u8>`.
    ///
    /// Format: `[msg_type: u8][fields...]`.
    pub fn encode(&self) -> (r: Vec<u8>)
        requires
            self@.encodable(),
        ensures
            r@ == self@.bytes(),
    {
        let mut buf = WireBuffer::new();
        buf.write_u8(self.msg_type_byte());
        let ghost start = buf@.data;
        match self {
            WireMessage::VibeUpdate { entity_id, vibe_bits, tick } => {
                write_u64s3(&mut buf, *entity_id, *vibe_bits, *tick);
            },
            WireMessage::ConservationCheck { baseline_bits, actual_bits, error_bits } => {
                write_u64s3(&mut buf, *baseline_bits, *actual_bits, *error_bits);
            },
            WireMessage::AgentAction { agent_id, action, param_bits } => {
                buf.write_u64_le(*agent_id);
                buf.write_u8(*action);
                let count = param_bits.len() as u32;
                buf.write_u32_le(count);
                let ghost fixed = buf@.data;
                let n = param_bits.len();
                let mut i: usize = 0;
                assert(param_bits@.subrange(0, 0) =~= Seq::<u64>::empty());
                while i < n
                    invariant
                        i <= n,
                        n == param_bits@.len(),
                        buf@.data == fixed + u64s_bytes(param_bits@.subrange(0, i as int)),
                    decreases n - i,
                {
                    buf.write_u64_le(param_bits[i]);
                    assert(param_bits@.subrange(0, i + 1).drop_last() =~= param_bits@.subrange(
                        0,
                        i as int,
                    ));
                    i = i + 1;
                }
                assert(param_bits@.subrange(0, n as int) =~= param_bits@);
            },
            WireMessage::RoomEvent { room_id, event_type, data } => {
                buf.write_u64_le(*room_id);
                buf.write_u8(*event_type);
                let written = buf.write_bytes(data.as_slice());
                assert(written is Ok);
            },
            WireMessage::WorldSnapshot { tick, entity_count, total_vibe_bits } => {
                buf.write_u64_le(*tick);
                buf.write_u32_le(*entity_count);
                buf.write_u64_le(*total_vibe_bits);
            },
            WireMessage::Ping { timestamp } => {
                buf.write_u64_le(*timestamp);
            },
            WireMessage::Pong { timestamp } => {
                buf.write_u64_le(*timestamp);
            },
        }
        assert(buf@.data =~= self@.bytes());
        buf.into_bytes()
    }

    /// Decode a message from a [`WireBuffer`].
    ///
    /// The buffer must be positioned at the message-type byte. Returns
    /// `UnexpectedEof` if the buffer is exhausted, `InvalidLength` for an
    /// unknown message type or too long a data field.
    pub fn decode(buf: &mut WireBuffer) -> (r: Result<Self, ProtocolError>)
        ensures
            (ok_view(r), final(buf)@) == decode_spec(old(buf)@),
    {
        proof {
            reveal_with_fuel(read_u64s_spec, 4);
        }
        let msg_type = buf.read_u8()?;
        if msg_type == VIBE_UPDATE {
            let entity_id = buf.read_u64_le()?;
            let vibe_bits = buf.read_u64_le()?;
            let tick = buf.read_u64_le()?;
            Ok(WireMessage::VibeUpdate { entity_id, vibe_bits, tick })
        } else if msg_type == CONSERVATION_CHECK {
            let baseline_bits = buf.read_u64_le()?;
            let actual_bits = buf.read_u64_le()?;
            let error_bits = buf.read_u64_le()?;
            Ok(WireMessage::ConservationCheck { baseline_bits, actual_bits, error_bits })
        } else if msg_type == AGENT_ACTION {
            let agent_id = buf.read_u64_le()?;
            let action = buf.read_u8()?;
            let count = buf.read_u32_le()?;
            let param_bits = read_u64s(buf, count)?;
            Ok(WireMessage::AgentAction { agent_id, action, param_bits })
        } else if msg_type == ROOM_EVENT {
            let room_id = buf.read_u64_le()?;
            let event_type = buf.read_u8()?;
            let data = buf.read_bytes()?;
            Ok(WireMessage::RoomEvent { room_id, event_type, data })
        } else if msg_type == WORLD_SNAPSHOT {
            let tick = buf.read_u64_le()?;
            let entity_count = buf.read_u32_le()?;
            let total_vibe_bits = buf.read_u64_le()?;
            Ok(WireMessage::WorldSnapshot { tick, entity_count, total_vibe_bits })
        } else if msg_type == PING {
            let timestamp = buf.read_u64_le()?;
            Ok(WireMessage::Ping { timestamp })
        } else if msg_type == PONG {
            let timestamp = buf.read_u64_le()?;
            Ok(WireMessage::Pong { timestamp })
        } else {
            Err(ProtocolError::InvalidLength(msg_type as u32))
        }
    }
}

/// Writes three `u64` values, each little-endian.
fn write_u64s3(buf: &mut WireBuffer, a: u64, b: u64, c: u64)
    ensures
        final(buf)@ == old(buf)@.appended(u64s_bytes(seq![a, b, c])),
{
    buf.write_u64_le(a);
    buf.write_u64_le(b);
    buf.write_u64_le(c);
    proof {
        reveal_with_fuel(u64s_bytes, 4);
        let ws = seq![a, b, c];
        assert(ws.drop_last() =~= seq![a, b]);
        assert(seq![a, b].drop_last() =~= seq![a]);
        assert(seq![a].drop_last() =~= Seq::<u64>::empty());
        assert(final(buf)@.data =~= old(buf)@.data + u64s_bytes(ws));
    }
}

/// Once reading a run of `u64` values fails, reading a longer run fails the
/// same way and leaves the buffer where the shorter one did.
proof fn lemma_read_u64s_err_persists(v: BufferView, k: nat, n: nat)
    requires
        k <= n,
        read_u64s_spec(v, k).0 is Err,
    ensures
        read_u64s_spec(v, n) == read_u64s_spec(v, k),
    decreases n,
{
    if k < n {
        lemma_read_u64s_err_persists(v, k, (n - 1) as nat);
    }
}

/// Reads `count` little-endian `u64` values one after another.
fn read_u64s(buf: &mut WireBuffer, count: u32) -> (r: Result<Vec<u64>, ProtocolError>)
    ensures
        (ok_view(r), final(buf)@) == read_u64s_spec(old(buf)@, count as nat),
{
    let mut out: Vec<u64> = Vec::new();
    let mut i: u32 = 0;
    while i < count
        invariant
            i <= count,
            (Ok::<Seq<u64>, ProtocolError>(out@), buf@) == read_u64s_spec(old(buf)@, i as nat),
        decreases count - i,
    {
        match buf.read_u64_le() {
            Ok(x) => {
                out.push(x);
            },
            Err(e) => {
                proof {
                    lemma_read_u64s_err_persists(old(buf)@, (i + 1) as nat, count as nat);
                }
                return Err(e);
            },
        }
        i = i + 1;
    }
    Ok(out)
}

// ── laws ----------------------------------------------------------------

/// The encoding of `n` values takes 8 bytes each.
pub proof fn lemma_u64s_bytes_len(ws: Seq<u64>)
    ensures
        u64s_bytes(ws).len() == 8 * ws.len(),
    decreases ws.len(),
{
    if ws.len() > 0 {
        lemma_u64s_bytes_len(ws.drop_last());
        lemma_le_bytes_len(ws.last() as nat, 8);
    }
}

/// Reading a run of `u64` values where such a run was written gives the
/// values back, whatever stands before or after it.
pub proof fn lemma_u64s_write_then_read(before: Seq<u8>, ws: Seq<u64>, after: Seq<u8>)
    ensures
        ({
            let v = cursor_on(before, u64s_bytes(ws), after);
            read_u64s_spec(v, ws.len()) == (Ok::<Seq<u64>, ProtocolError>(ws), v.at(
                v.pos + 8 * ws.len(),
            ))
        }),
    decreases ws.len(),
{
    lemma_u64s_bytes_len(ws);
    if ws.len() == 0 {
        assert(ws =~= Seq::<u64>::empty());
    } else {
        let init = ws.drop_last();
        let last_bytes = le_bytes(ws.last() as nat, 8);
        lemma_u64s_bytes_len(init);
        lemma_le_bytes_len(ws.last() as nat, 8);
        lemma_cursor_next(before, u64s_bytes(init), last_bytes, after);
        lemma_u64s_write_then_read(before, init, last_bytes + after);
        law_u64_write_then_read(before + u64s_bytes(init), ws.last(), after);
        assert(init.push(ws.last()) =~= ws);
    }
}

/// Decoding the body of a message where it was encoded gives the message.
proof fn lemma_body_decode_encode(m: MessageView, before: Seq<u8>, after: Seq<u8>)
    requires
        m.encodable(),
    ensures
        ({
            let v = cursor_on(before, m.body_bytes(), after);
            decode_body_spec(m.tag(), v) == (Ok::<MessageView, ProtocolError>(m), v.at(
                v.pos + m.body_bytes().len(),
            ))
        }),
{
    match m {
        MessageView::VibeUpdate { entity_id, vibe_bits, tick } => {
            let ws = seq![entity_id, vibe_bits, tick];
            lemma_u64s_write_then_read(before, ws, after);
            lemma_u64s_bytes_len(ws);
        },
        MessageView::ConservationCheck { baseline_bits, actual_bits, error_bits } => {
            let ws = seq![baseline_bits, actual_bits, error_bits];
            lemma_u64s_write_then_read(before, ws, after);
            lemma_u64s_bytes_len(ws);
        },
        MessageView::AgentAction { agent_id, action, param_bits } => {
            let x1 = le_bytes(agent_id as nat, 8);
            let x2 = seq![action];
            let x3 = le_bytes(param_bits.len(), 4);
            let x4 = u64s_bytes(param_bits);
            lemma_le_bytes_len(agent_id as nat, 8);
            lemma_le_bytes_len(param_bits.len(), 4);
            lemma_u64s_bytes_len(param_bits);
            assert(x1 + x2 + x3 + x4 =~= x1 + (x2 + (x3 + x4)));
            lemma_cursor_next(before, x1, x2 + (x3 + x4), after);
            law_u64_write_then_read(before, agent_id, x2 + (x3 + x4) + after);
            lemma_cursor_next(before + x1, x2, x3 + x4, after);
            law_u8_write_then_read(before + x1, action, x3 + x4 + after);
            lemma_cursor_next(before + x1 + x2, x3, x4, after);
            law_u32_write_then_read(before + x1 + x2, param_bits.len() as u32, x4 + after);
            lemma_u64s_write_then_read(before + x1 + x2 + x3, param_bits, after);
        },
        MessageView::RoomEvent { room_id, event_type, data } => {
            let x1 = le_bytes(room_id as nat, 8);
            let x2 = seq![event_type];
            let x3 = le_bytes(data.len(), 4) + data;
            lemma_le_bytes_len(room_id as nat, 8);
            lemma_le_bytes_len(data.len(), 4);
            assert(x1 + x2 + le_bytes(data.len(), 4) + data =~= x1 + (x2 + x3));
            lemma_cursor_next(before, x1, x2 + x3, after);
            law_u64_write_then_read(before, room_id, x2 + x3 + after);
            lemma_cursor_next(before + x1, x2, x3, after);
            law_u8_write_then_read(before + x1, event_type, x3 + after);
            law_bytes_write_then_read(before + x1 + x2, data, after);
        },
        MessageView::WorldSnapshot { tick, entity_count, total_vibe_bits } => {
            let x1 = le_bytes(tick as nat, 8);
            let x2 = le_bytes(entity_count as nat, 4);
            let x3 = le_bytes(total_vibe_bits as nat, 8);
            lemma_le_bytes_len(tick as nat, 8);
            lemma_le_bytes_len(entity_count as nat, 4);
            lemma_le_bytes_len(total_vibe_bits as nat, 8);
            assert(x1 + x2 + x3 =~= x1 + (x2 + x3));
            lemma_cursor_next(before, x1, x2 + x3, after);
            law_u64_write_then_read(before, tick, x2 + x3 + after);
            lemma_cursor_next(before + x1, x2, x3, after);
            law_u32_write_then_read(before + x1, entity_count, x3 + after);
            law_u64_write_then_read(before + x1 + x2, total_vibe_bits, after);
        },
        MessageView::Ping { timestamp } => {
            lemma_le_bytes_len(timestamp as nat, 8);
            law_u64_write_then_read(before, timestamp, after);
        },
        MessageView::Pong { timestamp } => {
            lemma_le_bytes_len(timestamp as nat, 8);
            law_u64_write_then_read(before, timestamp, after);
        },
    }
}

/// Decoding a message where an encodable message was encoded gives that
/// message back and leaves the cursor just past its encoding, whatever
/// stands before or after it.
pub proof fn law_message_decode_encode(m: MessageView, before: Seq<u8>, after: Seq<u8>)
    requires
        m.encodable(),
    ensures
        ({
            let v = cursor_on(before, m.bytes(), after);
            decode_spec(v) == (Ok::<MessageView, ProtocolError>(m), v.at(v.pos + m.bytes().len()))
        }),
{
    let body = m.body_bytes();
    lemma_cursor_next(before, seq![m.tag()], body, after);
    law_u8_write_then_read(before, m.tag(), body + after);
    lemma_body_decode_encode(m, before + seq![m.tag()], after);
}

/// Two encodable messages with the same encoding are the same message.
pub proof fn law_message_encoding_injective(m1: MessageView, m2: MessageView)
    requires
        m1.encodable(),
        m2.encodable(),
        m1.bytes() == m2.bytes(),
    ensures
        m1 == m2,
{
    law_message_decode_encode(m1, Seq::empty(), Seq::empty());
    law_message_decode_encode(m2, Seq::empty(), Seq::empty());
}

} // verus!
