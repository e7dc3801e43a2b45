//! The fixed-size header that starts every protocol message.

use vstd::prelude::*;

use crate::le::{
    lemma_byte_base_values, lemma_le_bytes_len, lemma_le_bytes_of_le_value, lemma_le_value_bound,
    lemma_le_value_of_le_bytes, le_bytes, le_value, le_value_at, push_le,
};

verus! {

/// Fixed-size header included at the start of every protocol message.
///
/// Wire format: `[msg_type: u8][payload_len: u32 LE][tick: u64 LE]`, 13 bytes.
#[derive(Debug, Clone, Copy, PartialEq, Eq, Structural)]
pub struct MessageHeader {
    pub msg_type: u8,
    pub payload_len: u32,
    pub tick: u64,
}

/// The 13 bytes that encode `h`.
pub open spec fn header_bytes(h: MessageHeader) -> Seq<u8> {
    seq![h.msg_type] + le_bytes(h.payload_len as nat, 4) + le_bytes(h.tick as nat, 8)
}

/// The header that the 13 bytes `b` encode.
pub open spec fn header_from_bytes(b: Seq<u8>) -> MessageHeader {
    MessageHeader {
        msg_type: b[0],
        payload_len: le_value(b.subrange(1, 5)) as u32,
        tick: le_value(b.subrange(5, 13)) as u64,
    }
}

impl MessageHeader {
    /// Header size in bytes (always 13).
    pub const SIZE: usize = 13;

    /// Encode the header into a 13-byte array.
    pub fn encode(&self) -> (r: [u8; 13])
        ensures
            r@ == header_bytes(*self),
    {
        let mut v: Vec<u8> = Vec::new();
        v.push(self.msg_type);
        push_le(&mut v, self.payload_len as u64, 4);
        push_le(&mut v, self.tick, 8);
        proof {
            lemma_le_bytes_len(self.payload_len as nat, 4);
            lemma_le_bytes_len(self.tick as nat, 8);
            assert(v@ =~= header_bytes(*self));
        }
        let r = [v[0], v[1], v[2], v[3], v[4], v[5], v[6], v[7], v[8], v[9], v[10], v[11], v[12]];
        assert(r@ =~= v@);
        r
    }

    /// Decode a header from a 13-byte array.
    pub fn decode(src: &[u8; 13]) -> (r: Self)
        ensures
            r == header_from_bytes(src@),
    {
        let bytes = src.as_slice();
        let msg_type = bytes[0];
        let payload_len = le_value_at(bytes, 1, 4);
        let tick = le_value_at(bytes, 5, 8);
        proof {
            lemma_byte_base_values();
            lemma_le_value_bound(bytes@.subrange(1, 5));
        }
        MessageHeader { msg_type, payload_len: payload_len as u32, tick }
    }
}

/// Decoding the encoding of a header gives the header back.
pub proof fn law_header_decode_encode(h: MessageHeader)
    ensures
        header_from_bytes(header_bytes(h)) == h,
{
    let b = header_bytes(h);
    lemma_le_bytes_len(h.payload_len as nat, 4);
    lemma_le_bytes_len(h.tick as nat, 8);
    lemma_byte_base_values();
    assert(b.subrange(1, 5) =~= le_bytes(h.payload_len as nat, 4));
    assert(b.subrange(5, 13) =~= le_bytes(h.tick as nat, 8));
    lemma_le_value_of_le_bytes(h.payload_len as nat, 4);
    lemma_le_value_of_le_bytes(h.tick as nat, 8);
}

/// Every 13 bytes are the encoding of the header they decode to: the
/// encoding is a bijection between headers and 13-byte arrays.
pub proof fn law_header_encode_decode(b: Seq<u8>)
    requires
        b.len() == 13,
    ensures
        header_bytes(header_from_bytes(b)) == b,
{
    let h = header_from_bytes(b);
    lemma_byte_base_values();
    lemma_le_value_bound(b.subrange(1, 5));
    lemma_le_value_bound(b.subrange(5, 13));
    lemma_le_bytes_of_le_value(b.subrange(1, 5));
    lemma_le_bytes_of_le_value(b.subrange(5, 13));
    assert(header_bytes(h) =~= b);
}

} // verus!
