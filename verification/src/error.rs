//! The errors of the protocol and the limits that decide some of them.

use vstd::prelude::*;
use vstd::string::StringExecFns;

verus! {

/// Errors that can occur while reading from or writing to a
/// [`WireBuffer`](crate::buffer::WireBuffer).
#[derive(Debug, Clone, Copy, PartialEq, Eq, Structural)]
pub enum ProtocolError {
    /// Not enough bytes left in the buffer to complete the read.
    UnexpectedEof,
    /// Attempted to decode invalid UTF-8 from a string field.
    InvalidUtf8,
    /// A length field exceeded an implementation-defined maximum
    /// (also used for an unknown message type byte).
    InvalidLength(u32),
}

/// The character of the decimal digit `d`.
pub open spec fn digit_char(d: nat) -> char {
    ('0' as nat + d) as char
}

/// The decimal digits of `n`, most significant first, without leading zeros.
pub open spec fn decimal(n: nat) -> Seq<char>
    decreases n,
{
    if n < 10 {
        seq![digit_char(n)]
    } else {
        decimal(n / 10).push(digit_char(n % 10))
    }
}

impl ProtocolError {
    /// The text that describes the error.
    pub open spec fn message_spec(self) -> Seq<char> {
        match self {
            ProtocolError::UnexpectedEof => "unexpected end of buffer"@,
            ProtocolError::InvalidUtf8 => "invalid UTF-8 sequence"@,
            ProtocolError::InvalidLength(n) => "invalid length: "@ + decimal(n as nat),
        }
    }

    /// The text that describes the error, as it is displayed.
    pub fn message(&self) -> (r: String)
        ensures
            r@ == self.message_spec(),
    {
        match self {
            ProtocolError::UnexpectedEof => String::from_str("unexpected end of buffer"),
            ProtocolError::InvalidUtf8 => String::from_str("invalid UTF-8 sequence"),
            ProtocolError::InvalidLength(n) => {
                let mut text = String::from_str("invalid length: ");
                push_decimal(&mut text, *n);
                text
            },
        }
    }
}

/// The one-character text of the decimal digit `d`.
fn digit_str(d: u32) -> (r: &'static str)
    requires
        d < 10,
    ensures
        r@ == seq![digit_char(d as nat)],
{
    proof {
        reveal_strlit("0");
        reveal_strlit("1");
        reveal_strlit("2");
        reveal_strlit("3");
        reveal_strlit("4");
        reveal_strlit("5");
        reveal_strlit("6");
        reveal_strlit("7");
        reveal_strlit("8");
        reveal_strlit("9");
    }
    let r = if d == 0 {
        "0"
    } else if d == 1 {
        "1"
    } else if d == 2 {
        "2"
    } else if d == 3 {
        "3"
    } else if d == 4 {
        "4"
    } else if d == 5 {
        "5"
    } else if d == 6 {
        "6"
    } else if d == 7 {
        "7"
    } else if d == 8 {
        "8"
    } else {
        "9"
    };
    assert(r@ =~= seq![digit_char(d as nat)]);
    r
}

/// Appends the decimal digits of `n` to `out`.
fn push_decimal(out: &mut String, n: u32)
    ensures
        final(out)@ == old(out)@ + decimal(n as nat),
    decreases n,
{
    if n >= 10 {
        push_decimal(out, n / 10);
    }
    out.append(digit_str(n % 10));
    assert(out@ =~= old(out)@ + decimal(n as nat));
}

/// Maximum number of bytes allowed in a single length-prefixed field.
/// Prevents malicious or malformed payloads from allocating huge vectors.
pub const MAX_PAYLOAD_BYTES: u32 = 64 * 1024 * 1024;

/// Maximum string length in bytes (UTF-8 encoded).
pub const MAX_STRING_BYTES: u32 = 16 * 1024 * 1024;

} // verus!
