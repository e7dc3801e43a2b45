//! The wire buffer: a byte vector that writes append to and a read cursor
//! that reads advance.

use vstd::prelude::*;
use vstd::utf8::{decode_utf8, encode_utf8, valid_utf8};

use crate::error::{ProtocolError, MAX_PAYLOAD_BYTES, MAX_STRING_BYTES};
use crate::le::{
    byte_base, lemma_byte_base_values, lemma_le_bytes_len, lemma_le_value_of_le_bytes, le_bytes,
    le_value, le_value_at, push_le,
};

verus! {

/// What a [`WireBuffer`] holds: the bytes written so far and the read cursor.
pub struct BufferView {
    pub data: Seq<u8>,
    pub pos: nat,
}

impl BufferView {
    /// Number of unread bytes: those from the cursor to the end, none if the
    /// cursor stands past the end.
    pub open spec fn unread(self) -> nat {
        if self.pos <= self.data.len() {
            (self.data.len() - self.pos) as nat
        } else {
            0
        }
    }

    /// The same bytes with `bytes` appended; the cursor stays where it is.
    pub open spec fn appended(self, bytes: Seq<u8>) -> BufferView {
        BufferView { data: self.data + bytes, pos: self.pos }
    }

    /// The same bytes with the cursor at `pos`.
    pub open spec fn at(self, pos: nat) -> BufferView {
        BufferView { data: self.data, pos }
    }

    /// The cursor stands within the written bytes (or at their end).
    pub open spec fn cursor_in_bounds(self) -> bool {
        self.pos <= self.data.len()
    }
}

/// The view of a result that holds a value with a view.
pub open spec fn ok_view<T: View>(r: Result<T, ProtocolError>) -> Result<T::V, ProtocolError> {
    match r {
        Ok(t) => Ok(t@),
        Err(e) => Err(e),
    }
}

/// Taking `n` raw bytes at the cursor: they are returned and the cursor
/// moves past them, or, where fewer than `n` remain, `UnexpectedEof` and
/// nothing moves.
pub open spec fn take_spec(v: BufferView, n: nat) -> (Result<Seq<u8>, ProtocolError>, BufferView) {
    if v.pos + n <= v.data.len() {
        (Ok(v.data.subrange(v.pos as int, v.pos + n as int)), v.at(v.pos + n))
    } else {
        (Err(ProtocolError::UnexpectedEof), v)
    }
}

/// Taking `n` bytes at the cursor as a little-endian number.
pub open spec fn take_le_spec(v: BufferView, n: nat) -> (Result<nat, ProtocolError>, BufferView) {
    match take_spec(v, n) {
        (Ok(b), w) => (Ok(le_value(b)), w),
        (Err(e), w) => (Err(e), w),
    }
}

/// Reading one byte.
pub open spec fn read_u8_spec(v: BufferView) -> (Result<u8, ProtocolError>, BufferView) {
    match take_le_spec(v, 1) {
        (Ok(x), w) => (Ok(x as u8), w),
        (Err(e), w) => (Err(e), w),
    }
}

/// Reading a little-endian `u16`.
pub open spec fn read_u16_spec(v: BufferView) -> (Result<u16, ProtocolError>, BufferView) {
    match take_le_spec(v, 2) {
        (Ok(x), w) => (Ok(x as u16), w),
        (Err(e), w) => (Err(e), w),
    }
}

/// Reading a little-endian `u32`.
pub open spec fn read_u32_spec(v: BufferView) -> (Result<u32, ProtocolError>, BufferView) {
    match take_le_spec(v, 4) {
        (Ok(x), w) => (Ok(x as u32), w),
        (Err(e), w) => (Err(e), w),
    }
}

/// Reading a little-endian `u64`.
pub open spec fn read_u64_spec(v: BufferView) -> (Result<u64, ProtocolError>, BufferView) {
    match take_le_spec(v, 8) {
        (Ok(x), w) => (Ok(x as u64), w),
        (Err(e), w) => (Err(e), w),
    }
}

/// The two's complement bit pattern of `x`.
pub open spec fn i64_bits(x: i64) -> u64 {
    if x >= 0 {
        x as u64
    } else {
        (x + 0x1_0000_0000_0000_0000) as u64
    }
}

/// The `i64` whose two's complement bit pattern is `x`.
pub open spec fn i64_from_bits(x: u64) -> i64 {
    if x < 0x8000_0000_0000_0000 {
        x as i64
    } else {
        (x - 0x1_0000_0000_0000_0000) as i64
    }
}

/// Reading a little-endian two's complement `i64`.
pub open spec fn read_i64_spec(v: BufferView) -> (Result<i64, ProtocolError>, BufferView) {
    match read_u64_spec(v) {
        (Ok(x), w) => (Ok(i64_from_bits(x)), w),
        (Err(e), w) => (Err(e), w),
    }
}

/// Reading a boolean: any nonzero byte is `true`.
pub open spec fn read_bool_spec(v: BufferView) -> (Result<bool, ProtocolError>, BufferView) {
    match read_u8_spec(v) {
        (Ok(b), w) => (Ok(b != 0), w),
        (Err(e), w) => (Err(e), w),
    }
}

/// Reading a `u32` length prefix and then that many bytes. A length above
/// `max` is refused with `InvalidLength` once the prefix has been read.
pub open spec fn read_prefixed_spec(v: BufferView, max: u32) -> (
    Result<Seq<u8>, ProtocolError>,
    BufferView,
) {
    match read_u32_spec(v) {
        (Ok(len), w) => if len > max {
            (Err(ProtocolError::InvalidLength(len)), w)
        } else {
            take_spec(w, len as nat)
        },
        (Err(e), w) => (Err(e), w),
    }
}

/// Reading a length-prefixed byte field.
pub open spec fn read_bytes_spec(v: BufferView) -> (Result<Seq<u8>, ProtocolError>, BufferView) {
    read_prefixed_spec(v, MAX_PAYLOAD_BYTES)
}

/// Reading a length-prefixed UTF-8 string field: the bytes are consumed
/// before they are checked.
pub open spec fn read_string_spec(v: BufferView) -> (Result<Seq<char>, ProtocolError>, BufferView) {
    match read_prefixed_spec(v, MAX_STRING_BYTES) {
        (Ok(b), w) => if valid_utf8(b) {
            (Ok(decode_utf8(b)), w)
        } else {
            (Err(ProtocolError::InvalidUtf8), w)
        },
        (Err(e), w) => (Err(e), w),
    }
}

/// The encoding of a boolean: one byte, 1 for `true` and 0 for `false`.
pub open spec fn bool_byte(b: bool) -> u8 {
    if b {
        1
    } else {
        0
    }
}

/// Writing a length-prefixed field: the `u32` length, then the bytes. A
/// field longer than `max` is refused with `InvalidLength` (of the length, or
/// of `u32::MAX` where the length does not fit in a `u32`) and nothing is
/// written.
pub open spec fn write_prefixed_spec(v: BufferView, bytes: Seq<u8>, max: u32) -> (
    Result<(), ProtocolError>,
    BufferView,
) {
    if bytes.len() > max {
        let reported: u32 = if bytes.len() > u32::MAX {
            u32::MAX
        } else {
            bytes.len() as u32
        };
        (Err(ProtocolError::InvalidLength(reported)), v)
    } else {
        (Ok(()), v.appended(le_bytes(bytes.len(), 4) + bytes))
    }
}

/// Writing a length-prefixed byte field of at most [`MAX_PAYLOAD_BYTES`] bytes.
pub open spec fn write_bytes_spec(v: BufferView, bytes: Seq<u8>) -> (
    Result<(), ProtocolError>,
    BufferView,
) {
    write_prefixed_spec(v, bytes, MAX_PAYLOAD_BYTES)
}

/// Writing a length-prefixed string field: its UTF-8 encoding as a field of at
/// most [`MAX_STRING_BYTES`] bytes, the most that a string read accepts.
pub open spec fn write_string_spec(v: BufferView, s: Seq<char>) -> (
    Result<(), ProtocolError>,
    BufferView,
) {
    write_prefixed_spec(v, encode_utf8(s), MAX_STRING_BYTES)
}

/// Calls `String::from_utf8` of std. Claims that the result is `Some`
/// exactly when `bytes` is well-formed UTF-8, and that it then holds the
/// characters that `bytes` encode.
#[verifier::external_body]
fn string_from_utf8(bytes: Vec<u8>) -> (r: Option<String>)
    ensures
        r is Some <==> valid_utf8(bytes@),
        r matches Some(s) ==> s@ == decode_utf8(bytes@),
{
    String::from_utf8(bytes).ok()
}

/// A compact, cursor-based buffer for reading and writing binary protocol data.
///
/// All multi-byte values are encoded little-endian.
/// Strings and raw byte fields are length-prefixed (`u32` length, then the data).
#[derive(Debug, PartialEq, Eq)]
pub struct WireBuffer {
    /// The underlying byte storage.
    data: Vec<u8>,
    /// Current read cursor position.
    pos: usize,
}

impl View for WireBuffer {
    type V = BufferView;

    closed spec fn view(&self) -> BufferView {
        BufferView { data: self.data@, pos: self.pos as nat }
    }
}

impl WireBuffer {
    /// The cursor never stands past the written bytes.
    #[verifier::type_invariant]
    closed spec fn cursor_within_data(self) -> bool {
        self.pos <= self.data.len()
    }

    /// Create an empty buffer.
    pub fn new() -> (r: Self)
        ensures
            r@ == (BufferView { data: Seq::empty(), pos: 0 }),
    {
        WireBuffer { data: Vec::new(), pos: 0 }
    }

    /// Create an empty buffer with the given capacity (avoids re-allocation).
    pub fn with_capacity(n: usize) -> (r: Self)
        ensures
            r@ == (BufferView { data: Seq::empty(), pos: 0 }),
    {
        WireBuffer { data: Vec::with_capacity(n), pos: 0 }
    }

    /// Create a buffer that holds `data`, with the cursor at its start.
    pub fn from_bytes(data: Vec<u8>) -> (r: Self)
        ensures
            r@ == (BufferView { data: data@, pos: 0 }),
    {
        WireBuffer { data, pos: 0 }
    }

    // ── write methods ------------------------------------------------------

    /// Write a single byte.
    pub fn write_u8(&mut self, v: u8)
        ensures
            final(self)@ == old(self)@.appended(seq![v]),
            final(self)@.cursor_in_bounds(),
    {
        let (mut data, pos) = self.take_storage();
        data.push(v);
        assert(data@ =~= old(self)@.data + seq![v]);
        *self = WireBuffer { data, pos };
    }

    /// Write a u16 in little-endian order.
    pub fn write_u16_le(&mut self, v: u16)
        ensures
            final(self)@ == old(self)@.appended(le_bytes(v as nat, 2)),
            final(self)@.cursor_in_bounds(),
    {
        self.append_le(v as u64, 2);
    }

    /// Write a u32 in little-endian order.
    pub fn write_u32_le(&mut self, v: u32)
        ensures
            final(self)@ == old(self)@.appended(le_bytes(v as nat, 4)),
            final(self)@.cursor_in_bounds(),
    {
        self.append_le(v as u64, 4);
    }

    /// Write a u64 in little-endian order.
    pub fn write_u64_le(&mut self, v: u64)
        ensures
            final(self)@ == old(self)@.appended(le_bytes(v as nat, 8)),
            final(self)@.cursor_in_bounds(),
    {
        self.append_le(v, 8);
    }

    /// Write an i64 in little-endian order (two's complement).
    pub fn write_i64_le(&mut self, v: i64)
        ensures
            final(self)@ == old(self)@.appended(le_bytes(i64_bits(v) as nat, 8)),
            final(self)@.cursor_in_bounds(),
    {
        let bits = v as u64;
        assert(v >= 0 ==> bits == v) by (bit_vector)
            requires
                bits == v as u64,
        ;
        assert(v < 0 ==> bits == v + 0x1_0000_0000_0000_0000) by (bit_vector)
            requires
                bits == v as u64,
        ;
        self.append_le(bits, 8);
    }

    /// Write a boolean as a single byte (1 = true, 0 = false).
    pub fn write_bool(&mut self, v: bool)
        ensures
            final(self)@ == old(self)@.appended(seq![bool_byte(v)]),
            final(self)@.cursor_in_bounds(),
    {
        let b: u8 = if v {
            1
        } else {
            0
        };
        self.write_u8(b);
    }

    /// Write a length-prefixed byte slice.
    ///
    /// Format: `[len: u32][data: len bytes]`.
    /// Returns `InvalidLength` if `bytes` exceeds [`MAX_PAYLOAD_BYTES`].
    pub fn write_bytes(&mut self, bytes: &[u8]) -> (r: Result<(), ProtocolError>)
        ensures
            (r, final(self)@) == write_bytes_spec(old(self)@, bytes@),
            final(self)@.cursor_in_bounds(),
    {
        self.write_prefixed(bytes, MAX_PAYLOAD_BYTES)
    }

    /// Write a length-prefixed UTF-8 string.
    ///
    /// Format: `[byte_len: u32][utf8 bytes]`.
    /// Returns `InvalidLength` if the encoded string is longer than
    /// [`MAX_STRING_BYTES`], the most that [`read_string`](Self::read_string) accepts.
    pub fn write_string(&mut self, s: &str) -> (r: Result<(), ProtocolError>)
        ensures
            (r, final(self)@) == write_string_spec(old(self)@, s@),
            final(self)@.cursor_in_bounds(),
    {
        self.write_prefixed(s.as_bytes(), MAX_STRING_BYTES)
    }

    // ── read methods -------------------------------------------------------

    /// Read a single byte.
    ///
    /// Returns `UnexpectedEof` if no bytes remain.
    pub fn read_u8(&mut self) -> (r: Result<u8, ProtocolError>)
        ensures
            (r, final(self)@) == read_u8_spec(old(self)@),
            final(self)@.cursor_in_bounds(),
    {
        match self.read_arr(1) {
            Ok(x) => Ok(x as u8),
            Err(e) => Err(e),
        }
    }

    /// Read a u16 in little-endian order.
    ///
    /// Returns `UnexpectedEof` if fewer than 2 bytes remain.
    pub fn read_u16_le(&mut self) -> (r: Result<u16, ProtocolError>)
        ensures
            (r, final(self)@) == read_u16_spec(old(self)@),
            final(self)@.cursor_in_bounds(),
    {
        match self.read_arr(2) {
            Ok(x) => Ok(x as u16),
            Err(e) => Err(e),
        }
    }

    /// Read a u32 in little-endian order.
    ///
    /// Returns `UnexpectedEof` if fewer than 4 bytes remain.
    pub fn read_u32_le(&mut self) -> (r: Result<u32, ProtocolError>)
        ensures
            (r, final(self)@) == read_u32_spec(old(self)@),
            final(self)@.cursor_in_bounds(),
    {
        match self.read_arr(4) {
            Ok(x) => Ok(x as u32),
            Err(e) => Err(e),
        }
    }

    /// Read a u64 in little-endian order.
    ///
    /// Returns `UnexpectedEof` if fewer than 8 bytes remain.
    pub fn read_u64_le(&mut self) -> (r: Result<u64, ProtocolError>)
        ensures
            (r, final(self)@) == read_u64_spec(old(self)@),
            final(self)@.cursor_in_bounds(),
    {
        self.read_arr(8)
    }

    /// Read an i64 in little-endian order (two's complement).
    ///
    /// Returns `UnexpectedEof` if fewer than 8 bytes remain.
    pub fn read_i64_le(&mut self) -> (r: Result<i64, ProtocolError>)
        ensures
            (r, final(self)@) == read_i64_spec(old(self)@),
            final(self)@.cursor_in_bounds(),
    {
        match self.read_arr(8) {
            Ok(x) => {
                let v = x as i64;
                assert(x < 0x8000_0000_0000_0000 ==> v == x) by (bit_vector)
                    requires
                        v == x as i64,
                ;
                assert(x >= 0x8000_0000_0000_0000 ==> v == x - 0x1_0000_0000_0000_0000)
                    by (bit_vector)
                    requires
                        v == x as i64,
                ;
                Ok(v)
            },
            Err(e) => Err(e),
        }
    }

    /// Read a boolean (any nonzero byte is true).
    ///
    /// Returns `UnexpectedEof` if no bytes remain.
    pub fn read_bool(&mut self) -> (r: Result<bool, ProtocolError>)
        ensures
            (r, final(self)@) == read_bool_spec(old(self)@),
            final(self)@.cursor_in_bounds(),
    {
        match self.read_u8() {
            Ok(b) => Ok(b != 0),
            Err(e) => Err(e),
        }
    }

    /// Read a length-prefixed byte vector.
    ///
    /// Returns `UnexpectedEof` if the buffer is exhausted, or `InvalidLength`
    /// if the length exceeds [`MAX_PAYLOAD_BYTES`].
    pub fn read_bytes(&mut self) -> (r: Result<Vec<u8>, ProtocolError>)
        ensures
            (ok_view(r), final(self)@) == read_bytes_spec(old(self)@),
            final(self)@.cursor_in_bounds(),
    {
        self.read_prefixed(MAX_PAYLOAD_BYTES)
    }

    /// Read a length-prefixed UTF-8 string.
    ///
    /// Returns `UnexpectedEof` if the buffer is exhausted, `InvalidLength` if
    /// the length exceeds [`MAX_STRING_BYTES`], or `InvalidUtf8` if the bytes
    /// are not valid UTF-8.
    pub fn read_string(&mut self) -> (r: Result<String, ProtocolError>)
        ensures
            (ok_view(r), final(self)@) == read_string_spec(old(self)@),
            final(self)@.cursor_in_bounds(),
    {
        match self.read_prefixed(MAX_STRING_BYTES) {
            Ok(bytes) => match string_from_utf8(bytes) {
                Some(s) => Ok(s),
                None => Err(ProtocolError::InvalidUtf8),
            },
            Err(e) => Err(e),
        }
    }

    // ── helpers ------------------------------------------------------------

    /// Number of unread bytes remaining.
    pub fn remaining(&self) -> (r: usize)
        ensures
            r == self@.unread(),
            self@.cursor_in_bounds(),
    {
        proof {
            use_type_invariant(self);
        }
        self.data.len().saturating_sub(self.pos)
    }

    /// Reset the read cursor to the beginning.
    pub fn reset_read(&mut self)
        ensures
            final(self)@ == old(self)@.at(0),
            final(self)@.cursor_in_bounds(),
    {
        self.pos = 0;
    }

    /// Consume the buffer and return the underlying bytes.
    pub fn into_bytes(self) -> (r: Vec<u8>)
        ensures
            r@ == self@.data,
    {
        self.data
    }

    /// Total number of bytes in the buffer (written data).
    pub fn len(&self) -> (r: usize)
        ensures
            r == self@.data.len(),
            self@.cursor_in_bounds(),
    {
        proof {
            use_type_invariant(self);
        }
        self.data.len()
    }

    /// Returns `true` if the buffer contains no data.
    pub fn is_empty(&self) -> (r: bool)
        ensures
            r == (self@.data.len() == 0),
            self@.cursor_in_bounds(),
    {
        proof {
            use_type_invariant(self);
        }
        self.data.len() == 0
    }

    // ── internal -----------------------------------------------------------

    /// Hands out the bytes and the cursor, leaving an empty buffer behind
    /// until the caller puts a buffer back.
    fn take_storage(&mut self) -> (r: (Vec<u8>, usize))
        ensures
            r.0@ == old(self)@.data,
            r.1 == old(self)@.pos,
            r.1 <= r.0@.len(),
            final(self)@ == (BufferView { data: Seq::empty(), pos: 0 }),
    {
        proof {
            use_type_invariant(&*self);
        }
        let mut taken = WireBuffer::new();
        core::mem::swap(self, &mut taken);
        proof {
            use_type_invariant(&taken);
        }
        let WireBuffer { data, pos } = taken;
        (data, pos)
    }

    /// Appends the `n` least significant bytes of `v`, least significant first.
    fn append_le(&mut self, v: u64, n: usize)
        ensures
            final(self)@ == old(self)@.appended(le_bytes(v as nat, n as nat)),
            final(self)@.cursor_in_bounds(),
    {
        let (mut data, pos) = self.take_storage();
        push_le(&mut data, v, n);
        *self = WireBuffer { data, pos };
    }

    /// Writes `bytes` as a `u32` length and the bytes, refusing a length
    /// above `max`.
    fn write_prefixed(&mut self, bytes: &[u8], max: u32) -> (r: Result<(), ProtocolError>)
        ensures
            (r, final(self)@) == write_prefixed_spec(old(self)@, bytes@, max),
            final(self)@.cursor_in_bounds(),
    {
        proof {
            use_type_invariant(&*self);
        }
        let n = bytes.len();
        if n > u32::MAX as usize {
            return Err(ProtocolError::InvalidLength(u32::MAX));
        }
        let len = n as u32;
        if len > max {
            return Err(ProtocolError::InvalidLength(len));
        }
        let (mut data, pos) = self.take_storage();
        push_le(&mut data, len as u64, 4);
        let ghost before = data@;
        let mut i: usize = 0;
        while i < n
            invariant
                i <= n,
                n == bytes@.len(),
                data@ == before + bytes@.subrange(0, i as int),
            decreases n - i,
        {
            data.push(bytes[i]);
            i = i + 1;
            assert(data@ =~= before + bytes@.subrange(0, i as int));
        }
        assert(bytes@.subrange(0, n as int) =~= bytes@);
        assert(data@ =~= old(self)@.data + (le_bytes(n as nat, 4) + bytes@));
        *self = WireBuffer { data, pos };
        Ok(())
    }

    /// Moves the cursor past the next `n` bytes and returns where they start,
    /// or `UnexpectedEof` (and no move) where fewer than `n` remain.
    fn advance(&mut self, n: usize) -> (r: Result<usize, ProtocolError>)
        ensures
            final(self).data == old(self).data,
            old(self)@.pos + n <= old(self)@.data.len() ==> r == Ok::<usize, ProtocolError>(
                old(self).pos,
            ) && final(self)@ == old(self)@.at((old(self)@.pos + n) as nat),
            old(self)@.pos + n > old(self)@.data.len() ==> r == Err::<usize, ProtocolError>(
                ProtocolError::UnexpectedEof,
            ) && final(self)@ == old(self)@,
            final(self)@.cursor_in_bounds(),
    {
        proof {
            use_type_invariant(&*self);
        }
        let len = self.data.len();
        match self.pos.checked_add(n) {
            None => Err(ProtocolError::UnexpectedEof),
            Some(end) => {
                if end > len {
                    Err(ProtocolError::UnexpectedEof)
                } else {
                    let start = self.pos;
                    self.pos = end;
                    Ok(start)
                }
            },
        }
    }

    /// Read exactly `n` (at most 8) bytes at the cursor as a little-endian number.
    fn read_arr(&mut self, n: usize) -> (r: Result<u64, ProtocolError>)
        requires
            n <= 8,
        ensures
            ({
                let (spec_r, spec_v) = take_le_spec(old(self)@, n as nat);
                &&& final(self)@ == spec_v
                &&& match r {
                    Ok(x) => spec_r == Ok::<nat, ProtocolError>(x as nat),
                    Err(e) => spec_r == Err::<nat, ProtocolError>(e),
                }
            }),
            final(self)@.cursor_in_bounds(),
    {
        match self.advance(n) {
            Ok(start) => Ok(le_value_at(self.data.as_slice(), start, n)),
            Err(e) => Err(e),
        }
    }

    /// Read exactly `n` raw bytes at the cursor.
    fn read_slice(&mut self, n: usize) -> (r: Result<Vec<u8>, ProtocolError>)
        ensures
            (ok_view(r), final(self)@) == take_spec(old(self)@, n as nat),
            final(self)@.cursor_in_bounds(),
    {
        match self.advance(n) {
            Ok(start) => {
                let out = vstd::slice::slice_to_vec(
                    vstd::slice::slice_subrange(self.data.as_slice(), start, start + n),
                );
                Ok(out)
            },
            Err(e) => Err(e),
        }
    }

    /// Read a `u32` length prefix, refuse it above `max`, then read that many bytes.
    fn read_prefixed(&mut self, max: u32) -> (r: Result<Vec<u8>, ProtocolError>)
        ensures
            (ok_view(r), final(self)@) == read_prefixed_spec(old(self)@, max),
            final(self)@.cursor_in_bounds(),
    {
        match self.read_u32_le() {
            Ok(len) => {
                if len > max {
                    Err(ProtocolError::InvalidLength(len))
                } else {
                    self.read_slice(len as usize)
                }
            },
            Err(e) => Err(e),
        }
    }
}

impl Clone for WireBuffer {
    fn clone(&self) -> (r: Self)
        ensures
            r@ == self@,
    {
        proof {
            use_type_invariant(self);
        }
        let data = self.data.clone();
        assert(data@ =~= self.data@);
        WireBuffer { data, pos: self.pos }
    }
}

impl Default for WireBuffer {
    fn default() -> (r: Self)
        ensures
            r@ == (BufferView { data: Seq::empty(), pos: 0 }),
    {
        Self::new()
    }
}

// ── laws ----------------------------------------------------------------

/// Where the next `b.len()` bytes at the cursor are `b`, taking them returns
/// `b` and moves the cursor past them.
pub proof fn lemma_take_known(v: BufferView, b: Seq<u8>)
    requires
        v.pos + b.len() <= v.data.len(),
        v.data.subrange(v.pos as int, v.pos + b.len() as int) == b,
    ensures
        take_spec(v, b.len()) == (Ok::<Seq<u8>, ProtocolError>(b), v.at(v.pos + b.len())),
{
}

/// Where the next `n` bytes at the cursor encode `x`, reading them as a
/// little-endian number returns `x` and moves the cursor past them.
pub proof fn lemma_take_le_known(v: BufferView, x: nat, n: nat)
    requires
        x < byte_base(n),
        v.pos + n <= v.data.len(),
        v.data.subrange(v.pos as int, v.pos + n as int) == le_bytes(x, n),
    ensures
        take_le_spec(v, n) == (Ok::<nat, ProtocolError>(x), v.at(v.pos + n)),
{
    lemma_le_bytes_len(x, n);
    lemma_le_value_of_le_bytes(x, n);
}

/// Bytes `before`, then `enc`, then `after`, with the cursor at the start of `enc`.
pub open spec fn cursor_on(before: Seq<u8>, enc: Seq<u8>, after: Seq<u8>) -> BufferView {
    BufferView { data: before + enc + after, pos: before.len() }
}

/// Proves what the next `n` bytes are in a [`cursor_on`] view.
proof fn lemma_cursor_on(before: Seq<u8>, enc: Seq<u8>, after: Seq<u8>)
    ensures
        ({
            let v = cursor_on(before, enc, after);
            &&& v.pos + enc.len() <= v.data.len()
            &&& v.data.subrange(v.pos as int, v.pos + enc.len() as int) == enc
        }),
{
    let v = cursor_on(before, enc, after);
    assert(v.data.subrange(v.pos as int, v.pos + enc.len() as int) =~= enc);
}

/// A byte read where a byte was written is that byte, whatever was written
/// before or after it; the cursor moves past it.
pub proof fn law_u8_write_then_read(before: Seq<u8>, x: u8, after: Seq<u8>)
    ensures
        ({
            let v = cursor_on(before, seq![x], after);
            read_u8_spec(v) == (Ok::<u8, ProtocolError>(x), v.at(v.pos + 1))
        }),
{
    lemma_byte_base_values();
    let enc = seq![x];
    assert(le_bytes(x as nat, 1) =~= enc) by {
        reveal_with_fuel(le_bytes, 2);
    }
    lemma_cursor_on(before, enc, after);
    lemma_take_le_known(cursor_on(before, enc, after), x as nat, 1);
}

/// A `u16` read where a `u16` was written is that value.
pub proof fn law_u16_write_then_read(before: Seq<u8>, x: u16, after: Seq<u8>)
    ensures
        ({
            let v = cursor_on(before, le_bytes(x as nat, 2), after);
            read_u16_spec(v) == (Ok::<u16, ProtocolError>(x), v.at(v.pos + 2))
        }),
{
    lemma_byte_base_values();
    let enc = le_bytes(x as nat, 2);
    lemma_le_bytes_len(x as nat, 2);
    lemma_cursor_on(before, enc, after);
    lemma_take_le_known(cursor_on(before, enc, after), x as nat, 2);
}

/// A `u32` read where a `u32` was written is that value.
pub proof fn law_u32_write_then_read(before: Seq<u8>, x: u32, after: Seq<u8>)
    ensures
        ({
            let v = cursor_on(before, le_bytes(x as nat, 4), after);
            read_u32_spec(v) == (Ok::<u32, ProtocolError>(x), v.at(v.pos + 4))
        }),
{
    lemma_byte_base_values();
    let enc = le_bytes(x as nat, 4);
    lemma_le_bytes_len(x as nat, 4);
    lemma_cursor_on(before, enc, after);
    lemma_take_le_known(cursor_on(before, enc, after), x as nat, 4);
}

/// A `u64` read where a `u64` was written is that value.
pub proof fn law_u64_write_then_read(before: Seq<u8>, x: u64, after: Seq<u8>)
    ensures
        ({
            let v = cursor_on(before, le_bytes(x as nat, 8), after);
            read_u64_spec(v) == (Ok::<u64, ProtocolError>(x), v.at(v.pos + 8))
        }),
{
    lemma_byte_base_values();
    let enc = le_bytes(x as nat, 8);
    lemma_le_bytes_len(x as nat, 8);
    lemma_cursor_on(before, enc, after);
    lemma_take_le_known(cursor_on(before, enc, after), x as nat, 8);
}

/// An `i64` read where an `i64` was written is that value.
pub proof fn law_i64_write_then_read(before: Seq<u8>, x: i64, after: Seq<u8>)
    ensures
        ({
            let v = cursor_on(before, le_bytes(i64_bits(x) as nat, 8), after);
            read_i64_spec(v) == (Ok::<i64, ProtocolError>(x), v.at(v.pos + 8))
        }),
{
    law_u64_write_then_read(before, i64_bits(x), after);
}

/// A boolean read where a boolean was written is that boolean.
pub proof fn law_bool_write_then_read(before: Seq<u8>, x: bool, after: Seq<u8>)
    ensures
        ({
            let v = cursor_on(before, seq![bool_byte(x)], after);
            read_bool_spec(v) == (Ok::<bool, ProtocolError>(x), v.at(v.pos + 1))
        }),
{
    law_u8_write_then_read(before, bool_byte(x), after);
}

/// Moving the cursor over the first part `x` of what stands at it.
pub proof fn lemma_cursor_next(before: Seq<u8>, x: Seq<u8>, rest: Seq<u8>, after: Seq<u8>)
    ensures
        cursor_on(before, x + rest, after) == cursor_on(before, x, rest + after),
        cursor_on(before, x, rest + after).at(before.len() + x.len()) == cursor_on(
            before + x,
            rest,
            after,
        ),
{
    assert(before + (x + rest) + after =~= before + x + (rest + after));
    assert(before + x + (rest + after) =~= (before + x) + rest + after);
}

/// A byte field of at most [`MAX_PAYLOAD_BYTES`] bytes is written as its
/// length and its bytes, and reading a byte field where it was written gives
/// the same bytes, whatever was written before or after it.
pub proof fn law_bytes_write_then_read(before: Seq<u8>, bytes: Seq<u8>, after: Seq<u8>)
    requires
        bytes.len() <= MAX_PAYLOAD_BYTES,
    ensures
        forall|w: BufferView|
            #[trigger] write_bytes_spec(w, bytes) == (Ok::<(), ProtocolError>(()), w.appended(
                le_bytes(bytes.len(), 4) + bytes,
            )),
        ({
            let v = cursor_on(before, le_bytes(bytes.len(), 4) + bytes, after);
            read_bytes_spec(v) == (Ok::<Seq<u8>, ProtocolError>(bytes), v.at(
                v.pos + 4 + bytes.len(),
            ))
        }),
{
    let prefix = le_bytes(bytes.len(), 4);
    lemma_le_bytes_len(bytes.len(), 4);
    lemma_cursor_next(before, prefix, bytes, after);
    law_u32_write_then_read(before, bytes.len() as u32, bytes + after);
    lemma_cursor_on(before + prefix, bytes, after);
    lemma_take_known(cursor_on(before + prefix, bytes, after), bytes);
}

/// Every string that is written can be read back: a write succeeds exactly
/// when the UTF-8 encoding takes at most [`MAX_STRING_BYTES`] bytes, it then
/// writes a byte field of that encoding, and reading a string where it was
/// written gives the same string, whatever was written before or after it.
pub proof fn law_string_write_then_read(before: Seq<u8>, s: Seq<char>, after: Seq<u8>)
    ensures
        forall|w: BufferView|
            (#[trigger] write_string_spec(w, s)).0 is Ok <==> encode_utf8(s).len()
                <= MAX_STRING_BYTES,
        forall|w: BufferView|
            (#[trigger] write_string_spec(w, s)).0 is Ok ==> write_string_spec(w, s).1
                == w.appended(le_bytes(encode_utf8(s).len(), 4) + encode_utf8(s)),
        encode_utf8(s).len() <= MAX_STRING_BYTES ==> ({
            let bytes = encode_utf8(s);
            let v = cursor_on(before, le_bytes(bytes.len(), 4) + bytes, after);
            read_string_spec(v) == (Ok::<Seq<char>, ProtocolError>(s), v.at(
                v.pos + 4 + bytes.len(),
            ))
        }),
{
    let bytes = encode_utf8(s);
    if bytes.len() <= MAX_STRING_BYTES {
        law_bytes_write_then_read(before, bytes, after);
        vstd::utf8::encode_utf8_valid_utf8(s);
        vstd::utf8::encode_utf8_decode_utf8(s);
    }
}

/// No read moves the cursor past the end of the written bytes, and no read
/// changes them; no write moves the cursor.
pub proof fn law_cursor_stays_in_bounds(v: BufferView, bytes: Seq<u8>, s: Seq<char>)
    requires
        v.cursor_in_bounds(),
    ensures
        read_u8_spec(v).1.cursor_in_bounds() && read_u8_spec(v).1.data == v.data,
        read_u16_spec(v).1.cursor_in_bounds() && read_u16_spec(v).1.data == v.data,
        read_u32_spec(v).1.cursor_in_bounds() && read_u32_spec(v).1.data == v.data,
        read_u64_spec(v).1.cursor_in_bounds() && read_u64_spec(v).1.data == v.data,
        read_i64_spec(v).1.cursor_in_bounds() && read_i64_spec(v).1.data == v.data,
        read_bool_spec(v).1.cursor_in_bounds() && read_bool_spec(v).1.data == v.data,
        read_bytes_spec(v).1.cursor_in_bounds() && read_bytes_spec(v).1.data == v.data,
        read_string_spec(v).1.cursor_in_bounds() && read_string_spec(v).1.data == v.data,
        write_bytes_spec(v, bytes).1.cursor_in_bounds() && write_bytes_spec(v, bytes).1.pos == v.pos,
        write_string_spec(v, s).1.cursor_in_bounds() && write_string_spec(v, s).1.pos == v.pos,
{
}

} // verus!
