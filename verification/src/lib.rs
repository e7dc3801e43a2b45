//! A cursor-based buffer for a compact little-endian binary protocol, with the
//! fixed-size message header and the tagged protocol messages built on it.

pub mod buffer;
pub mod error;
pub mod header;
pub mod layout;
pub mod le;
pub mod message;
pub mod msg_type;

pub use buffer::WireBuffer;
pub use error::{ProtocolError, MAX_PAYLOAD_BYTES, MAX_STRING_BYTES};
pub use header::MessageHeader;
pub use message::WireMessage;
