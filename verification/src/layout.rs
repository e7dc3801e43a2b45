//! The wire layout of each protocol message, stated byte by byte: which
//! field stands at which offset, and that decoding such bytes gives those
//! fields back.

use vstd::prelude::*;

use crate::buffer::cursor_on;
use crate::error::{ProtocolError, MAX_PAYLOAD_BYTES};
use crate::le::{lemma_le_bytes_len, le_bytes};
use crate::message::{
    decode_spec, law_message_decode_encode, lemma_u64s_bytes_len, u64s_bytes, MessageView,
};

verus! {

/// Decoding where `raw` stands gives `m` and moves the cursor past `raw`.
pub open spec fn decodes_to(before: Seq<u8>, raw: Seq<u8>, after: Seq<u8>, m: MessageView) -> bool {
    let v = cursor_on(before, raw, after);
    decode_spec(v) == (Ok::<MessageView, ProtocolError>(m), v.at(v.pos + raw.len()))
}

/// Chunk `i` of the encoding of a run of values is value `i`, as 8
/// little-endian bytes, in the order of the run.
pub proof fn law_u64s_bytes_chunks(ws: Seq<u64>)
    ensures
        u64s_bytes(ws).len() == 8 * ws.len(),
        forall|i: int|
            #![trigger ws[i]]
            0 <= i < ws.len() ==> u64s_bytes(ws).subrange(8 * i, 8 * i + 8) == le_bytes(
                ws[i] as nat,
                8,
            ),
    decreases ws.len(),
{
    lemma_u64s_bytes_len(ws);
    if ws.len() > 0 {
        let init = ws.drop_last();
        law_u64s_bytes_chunks(init);
        lemma_le_bytes_len(ws.last() as nat, 8);
        let whole = u64s_bytes(ws);
        assert(whole == u64s_bytes(init) + le_bytes(ws.last() as nat, 8));
        assert forall|i: int| 0 <= i < ws.len() implies #[trigger] whole.subrange(
            8 * i,
            8 * i + 8,
        ) == le_bytes(ws[i] as nat, 8) by {
            if i < ws.len() - 1 {
                assert(init[i] == ws[i]);
                assert(whole.subrange(8 * i, 8 * i + 8) =~= u64s_bytes(init).subrange(
                    8 * i,
                    8 * i + 8,
                ));
            } else {
                assert(whole.subrange(8 * i, 8 * i + 8) =~= le_bytes(ws.last() as nat, 8));
            }
        }
    }
}

/// Bytes whose 8-byte chunks are the values of `ws`, in order, are the
/// encoding of `ws`.
pub proof fn lemma_chunks_are_u64s_bytes(chunks: Seq<u8>, ws: Seq<u64>)
    requires
        chunks.len() == 8 * ws.len(),
        forall|i: int|
            #![trigger ws[i]]
            0 <= i < ws.len() ==> chunks.subrange(8 * i, 8 * i + 8) == le_bytes(ws[i] as nat, 8),
    ensures
        chunks == u64s_bytes(ws),
{
    law_u64s_bytes_chunks(ws);
    let q = u64s_bytes(ws);
    assert forall|k: int| 0 <= k < chunks.len() implies chunks[k] == q[k] by {
        let i = k / 8;
        let j = k % 8;
        assert(0 <= i < ws.len());
        let w = ws[i];
        assert(chunks.subrange(8 * i, 8 * i + 8)[j] == chunks[k]);
        assert(q.subrange(8 * i, 8 * i + 8)[j] == q[k]);
    }
    assert(chunks =~= q);
}

/// A `VibeUpdate` is `[0x01][entity_id: u64][vibe: u64][tick: u64]`, all
/// little-endian, and those bytes decode to it.
pub proof fn law_vibe_update_layout(
    entity_id: u64,
    vibe_bits: u64,
    tick: u64,
    before: Seq<u8>,
    after: Seq<u8>,
)
    ensures
        ({
            let m = MessageView::VibeUpdate { entity_id, vibe_bits, tick };
            let raw = seq![0x01u8] + le_bytes(entity_id as nat, 8) + le_bytes(vibe_bits as nat, 8)
                + le_bytes(tick as nat, 8);
            &&& m.bytes() == raw
            &&& decodes_to(before, raw, after, m)
        }),
{
    let m = MessageView::VibeUpdate { entity_id, vibe_bits, tick };
    let ws = seq![entity_id, vibe_bits, tick];
    reveal_with_fuel(u64s_bytes, 4);
    assert(ws.drop_last() =~= seq![entity_id, vibe_bits]);
    assert(seq![entity_id, vibe_bits].drop_last() =~= seq![entity_id]);
    assert(seq![entity_id].drop_last() =~= Seq::<u64>::empty());
    assert(m.bytes() =~= seq![0x01u8] + le_bytes(entity_id as nat, 8) + le_bytes(
        vibe_bits as nat,
        8,
    ) + le_bytes(tick as nat, 8));
    law_message_decode_encode(m, before, after);
}

/// A `ConservationCheck` is `[0x02][baseline: u64][actual: u64][error: u64]`,
/// all little-endian, and those bytes decode to it.
pub proof fn law_conservation_check_layout(
    baseline_bits: u64,
    actual_bits: u64,
    error_bits: u64,
    before: Seq<u8>,
    after: Seq<u8>,
)
    ensures
        ({
            let m = MessageView::ConservationCheck { baseline_bits, actual_bits, error_bits };
            let raw = seq![0x02u8] + le_bytes(baseline_bits as nat, 8) + le_bytes(
                actual_bits as nat,
                8,
            ) + le_bytes(error_bits as nat, 8);
            &&& m.bytes() == raw
            &&& decodes_to(before, raw, after, m)
        }),
{
    let m = MessageView::ConservationCheck { baseline_bits, actual_bits, error_bits };
    let ws = seq![baseline_bits, actual_bits, error_bits];
    reveal_with_fuel(u64s_bytes, 4);
    assert(ws.drop_last() =~= seq![baseline_bits, actual_bits]);
    assert(seq![baseline_bits, actual_bits].drop_last() =~= seq![baseline_bits]);
    assert(seq![baseline_bits].drop_last() =~= Seq::<u64>::empty());
    assert(m.bytes() =~= seq![0x02u8] + le_bytes(baseline_bits as nat, 8) + le_bytes(
        actual_bits as nat,
        8,
    ) + le_bytes(error_bits as nat, 8));
    law_message_decode_encode(m, before, after);
}

/// The fixed part of an `AgentAction`:
/// `[0x03][agent_id: u64][action: u8][param count: u32]`, 14 bytes.
pub open spec fn agent_action_head(agent_id: u64, action: u8, count: nat) -> Seq<u8> {
    seq![0x03u8] + le_bytes(agent_id as nat, 8) + seq![action] + le_bytes(count, 4)
}

/// An `AgentAction` is its 14-byte head followed by its parameters, parameter
/// `i` as the 8 little-endian bytes at offset `14 + 8 * i`.
pub proof fn law_agent_action_layout(agent_id: u64, action: u8, param_bits: Seq<u64>)
    ensures
        ({
            let b = MessageView::AgentAction { agent_id, action, param_bits }.bytes();
            &&& b.len() == 14 + 8 * param_bits.len()
            &&& b.subrange(0, 14) == agent_action_head(agent_id, action, param_bits.len())
            &&& forall|i: int|
                #![trigger param_bits[i]]
                0 <= i < param_bits.len() ==> b.subrange(14 + 8 * i, 22 + 8 * i) == le_bytes(
                    param_bits[i] as nat,
                    8,
                )
        }),
{
    let m = MessageView::AgentAction { agent_id, action, param_bits };
    let head = agent_action_head(agent_id, action, param_bits.len());
    let tail = u64s_bytes(param_bits);
    lemma_le_bytes_len(agent_id as nat, 8);
    lemma_le_bytes_len(param_bits.len(), 4);
    law_u64s_bytes_chunks(param_bits);
    let b = m.bytes();
    assert(b =~= head + tail);
    assert(b.subrange(0, 14) =~= head);
    assert forall|i: int|
        #![trigger param_bits[i]]
        0 <= i < param_bits.len() implies b.subrange(14 + 8 * i, 22 + 8 * i) == le_bytes(
            param_bits[i] as nat,
            8,
        ) by {
        assert(b.subrange(14 + 8 * i, 22 + 8 * i) =~= tail.subrange(8 * i, 8 * i + 8));
    }
}

/// Bytes made of an `AgentAction` head announcing `n` parameters and `n`
/// 8-byte chunks decode to the message whose parameter `i` is chunk `i`.
pub proof fn law_agent_action_decode(
    agent_id: u64,
    action: u8,
    param_bits: Seq<u64>,
    chunks: Seq<u8>,
    before: Seq<u8>,
    after: Seq<u8>,
)
    requires
        param_bits.len() <= u32::MAX,
        chunks.len() == 8 * param_bits.len(),
        forall|i: int|
            #![trigger param_bits[i]]
            0 <= i < param_bits.len() ==> chunks.subrange(8 * i, 8 * i + 8) == le_bytes(
                param_bits[i] as nat,
                8,
            ),
    ensures
        decodes_to(
            before,
            agent_action_head(agent_id, action, param_bits.len()) + chunks,
            after,
            MessageView::AgentAction { agent_id, action, param_bits },
        ),
{
    let m = MessageView::AgentAction { agent_id, action, param_bits };
    lemma_chunks_are_u64s_bytes(chunks, param_bits);
    assert(m.bytes() =~= agent_action_head(agent_id, action, param_bits.len()) + chunks);
    law_message_decode_encode(m, before, after);
}

/// A `RoomEvent` is `[0x04][room_id: u64][event_type: u8][data length: u32][data]`,
/// and those bytes decode to it.
pub proof fn law_room_event_layout(
    room_id: u64,
    event_type: u8,
    data: Seq<u8>,
    before: Seq<u8>,
    after: Seq<u8>,
)
    requires
        data.len() <= MAX_PAYLOAD_BYTES,
    ensures
        ({
            let m = MessageView::RoomEvent { room_id, event_type, data };
            let raw = seq![0x04u8] + le_bytes(room_id as nat, 8) + seq![event_type] + le_bytes(
                data.len(),
                4,
            ) + data;
            &&& m.bytes() == raw
            &&& decodes_to(before, raw, after, m)
        }),
{
    let m = MessageView::RoomEvent { room_id, event_type, data };
    assert(m.bytes() =~= seq![0x04u8] + le_bytes(room_id as nat, 8) + seq![event_type]
        + le_bytes(data.len(), 4) + data);
    law_message_decode_encode(m, before, after);
}

/// A `WorldSnapshot` is `[0x05][tick: u64][entity_count: u32][total_vibe: u64]`,
/// all little-endian, and those bytes decode to it.
pub proof fn law_world_snapshot_layout(
    tick: u64,
    entity_count: u32,
    total_vibe_bits: u64,
    before: Seq<u8>,
    after: Seq<u8>,
)
    ensures
        ({
            let m = MessageView::WorldSnapshot { tick, entity_count, total_vibe_bits };
            let raw = seq![0x05u8] + le_bytes(tick as nat, 8) + le_bytes(entity_count as nat, 4)
                + le_bytes(total_vibe_bits as nat, 8);
            &&& m.bytes() == raw
            &&& decodes_to(before, raw, after, m)
        }),
{
    let m = MessageView::WorldSnapshot { tick, entity_count, total_vibe_bits };
    assert(m.bytes() =~= seq![0x05u8] + le_bytes(tick as nat, 8) + le_bytes(
        entity_count as nat,
        4,
    ) + le_bytes(total_vibe_bits as nat, 8));
    law_message_decode_encode(m, before, after);
}

/// A `Ping` is `[0x06][timestamp: u64]` and a `Pong` is `[0x07][timestamp: u64]`,
/// and those bytes decode to them.
pub proof fn law_ping_pong_layout(timestamp: u64, before: Seq<u8>, after: Seq<u8>)
    ensures
        ({
            let ping = MessageView::Ping { timestamp };
            let pong = MessageView::Pong { timestamp };
            let ping_raw = seq![0x06u8] + le_bytes(timestamp as nat, 8);
            let pong_raw = seq![0x07u8] + le_bytes(timestamp as nat, 8);
            &&& ping.bytes() == ping_raw
            &&& decodes_to(before, ping_raw, after, ping)
            &&& pong.bytes() == pong_raw
            &&& decodes_to(before, pong_raw, after, pong)
        }),
{
    let ping = MessageView::Ping { timestamp };
    let pong = MessageView::Pong { timestamp };
    assert(ping.bytes() =~= seq![0x06u8] + le_bytes(timestamp as nat, 8));
    assert(pong.bytes() =~= seq![0x07u8] + le_bytes(timestamp as nat, 8));
    law_message_decode_encode(ping, before, after);
    law_message_decode_encode(pong, before, after);
}

/// A type byte other than 1 to 7 is refused with `InvalidLength` of that
/// byte, and only the type byte is consumed.
pub proof fn law_unknown_type_refused(t: u8, before: Seq<u8>, after: Seq<u8>)
    requires
        t == 0 || t > 7,
    ensures
        ({
            let v = cursor_on(before, seq![t], after);
            decode_spec(v) == (Err::<MessageView, ProtocolError>(
                ProtocolError::InvalidLength(t as u32),
            ), v.at(v.pos + 1))
        }),
{
    crate::buffer::law_u8_write_then_read(before, t, after);
}

} // verus!
